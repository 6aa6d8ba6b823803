//! The tables of the Khmer syllable machine.
use vstd::prelude::*;
use crate::syllable_machine::{SyllableMachine, MachineTables};

verus! {

pub const KHMER_TRANS_KEYS: [u16; 88] = [
    3, 10, 3, 10, 0, 0, 3, 10, 3, 10, 3, 10, 3, 10, 3, 10, 3, 10, 3, 10,
    3, 10, 3, 10, 3, 10, 0, 0, 3, 10, 3, 10, 3, 10, 3, 10, 3, 10, 3, 10,
    3, 10, 0, 11, 2, 11, 0, 0, 2, 11, 2, 11, 11, 11, 2, 11, 2, 11, 2, 11,
    2, 11, 2, 11, 2, 11, 0, 0, 2, 11, 2, 11, 11, 11, 2, 11, 2, 11, 2, 11,
    2, 11, 2, 11, 3, 10, 0, 0,
];

pub const KHMER_CHAR_CLASS: [u16; 29] = [
    0, 0, 1, 2, 3, 3, 1, 1, 1, 4, 4, 1, 1, 1, 0, 1, 1, 1, 1, 5,
    6, 7, 8, 1, 9, 10, 11, 0, 0,
];

pub const KHMER_INDEX_OFFSETS: [u16; 45] = [
    0, 8, 16, 17, 25, 33, 41, 49, 57, 65, 73, 81, 89, 97, 98, 106, 114, 122, 130, 138,
    146, 154, 166, 176, 177, 187, 197, 198, 208, 218, 228, 238, 248, 258, 259, 269, 279, 280, 290, 300,
    310, 320, 330, 0, 0,
];

pub const KHMER_INDICES: [u16; 340] = [
    1, 0, 2, 0, 0, 0, 3, 4, 1, 0, 0, 0, 0, 0, 0, 4, 5, 1, 0, 2,
    0, 0, 0, 0, 4, 6, 0, 0, 0, 0, 0, 0, 2, 7, 0, 0, 0, 0, 0, 0,
    8, 9, 0, 2, 0, 0, 0, 0, 10, 9, 0, 0, 0, 0, 0, 0, 10, 11, 0, 2,
    0, 0, 0, 0, 12, 11, 0, 0, 0, 0, 0, 0, 12, 1, 0, 2, 0, 0, 0, 13,
    4, 15, 14, 16, 14, 14, 14, 17, 18, 15, 19, 19, 19, 19, 19, 19, 18, 20, 15, 14,
    16, 14, 14, 14, 14, 18, 21, 14, 14, 14, 14, 14, 14, 16, 22, 14, 14, 14, 14, 14,
    14, 23, 24, 14, 16, 14, 14, 14, 14, 25, 24, 14, 14, 14, 14, 14, 14, 25, 26, 14,
    16, 14, 14, 14, 14, 27, 26, 14, 14, 14, 14, 14, 14, 27, 30, 29, 31, 32, 13, 16,
    25, 27, 23, 17, 18, 20, 34, 35, 33, 2, 10, 12, 8, 13, 4, 5, 36, 34, 37, 33,
    2, 10, 12, 8, 3, 4, 5, 38, 39, 33, 2, 10, 12, 8, 33, 4, 5, 5, 38, 6,
    33, 33, 33, 33, 8, 33, 2, 5, 38, 7, 33, 33, 33, 33, 33, 33, 8, 5, 38, 40,
    33, 2, 33, 33, 8, 33, 10, 5, 38, 41, 33, 2, 10, 33, 8, 33, 12, 5, 34, 39,
    33, 2, 10, 12, 8, 33, 4, 5, 34, 39, 33, 2, 10, 12, 8, 3, 4, 5, 43, 31,
    44, 42, 16, 25, 27, 23, 17, 18, 20, 45, 46, 42, 16, 25, 27, 23, 42, 18, 20, 20,
    45, 21, 42, 42, 42, 42, 23, 42, 16, 20, 45, 22, 42, 42, 42, 42, 42, 42, 23, 20,
    45, 47, 42, 16, 42, 42, 23, 42, 25, 20, 45, 48, 42, 16, 25, 42, 23, 42, 27, 20,
    31, 46, 42, 16, 25, 27, 23, 42, 18, 20, 15, 49, 16, 49, 49, 49, 49, 18, 0, 0,
];

pub const KHMER_INDEX_DEFAULTS: [u16; 45] = [
    0, 0, 0, 0, 0, 0, 0, 0, 0, 0, 0, 14, 19, 14, 14, 14, 14, 14, 14, 14,
    14, 29, 33, 33, 33, 33, 33, 33, 33, 33, 33, 33, 33, 42, 42, 42, 42, 42, 42, 42,
    42, 42, 49, 0, 0,
];

pub const KHMER_COND_TARGS: [u16; 52] = [
    21, 1, 27, 31, 25, 26, 4, 5, 28, 7, 29, 9, 30, 32, 21, 12, 37, 41, 35, 21,
    36, 15, 16, 38, 18, 39, 20, 40, 21, 21, 22, 33, 42, 21, 23, 10, 24, 0, 2, 3,
    6, 8, 21, 34, 11, 13, 14, 17, 19, 21, 0, 0,
];

pub const KHMER_COND_ACTIONS: [u16; 52] = [
    1, 0, 2, 2, 2, 0, 0, 0, 2, 0, 2, 0, 2, 2, 3, 0, 2, 4, 4, 5,
    0, 0, 0, 2, 0, 2, 0, 2, 0, 8, 2, 0, 9, 10, 0, 0, 2, 0, 0, 0,
    0, 0, 11, 4, 0, 0, 0, 0, 0, 12, 0, 0,
];

pub const KHMER_TO_STATE_ACTIONS: [u16; 45] = [
    0, 0, 0, 0, 0, 0, 0, 0, 0, 0, 0, 0, 0, 0, 0, 0, 0, 0, 0, 0,
    0, 6, 0, 0, 0, 0, 0, 0, 0, 0, 0, 0, 0, 0, 0, 0, 0, 0, 0, 0,
    0, 0, 0, 0, 0,
];

pub const KHMER_FROM_STATE_ACTIONS: [u16; 45] = [
    0, 0, 0, 0, 0, 0, 0, 0, 0, 0, 0, 0, 0, 0, 0, 0, 0, 0, 0, 0,
    0, 7, 0, 0, 0, 0, 0, 0, 0, 0, 0, 0, 0, 0, 0, 0, 0, 0, 0, 0,
    0, 0, 0, 0, 0,
];

pub const KHMER_EOF_TRANS: [u16; 45] = [
    1, 1, 1, 1, 1, 1, 1, 1, 1, 1, 1, 15, 20, 15, 15, 15, 15, 15, 15, 15,
    15, 29, 34, 34, 34, 34, 34, 34, 34, 34, 34, 34, 34, 43, 43, 43, 43, 43, 43, 43,
    43, 43, 50, 0, 0,
];

pub const KHMER_OPS: [u16; 13] = [
    0, 5, 1, 21, 34, 6, 0, 0, 35, 50, 4, 20, 36,
];

pub const KHMER_ACT_KINDS: [u8; 4] = [255, 255, 1, 2];

pub const KHMER_ACT_SET: [bool; 45] = [
    false, false, false, false, false, false, false, false, false, false, false, true,
    true, false, true, false, false, false, false, false, false, false, false, false,
    false, false, false, false, false, false, false, false, false, false, true, true,
    false, false, false, false, false, true, true, false, false,
];

pub const KHMER_FRESH: [bool; 45] = [
    true, true, true, true, true, true, true, true, true, true, true, true,
    true, true, true, true, true, true, true, true, true, false, true, true,
    true, true, true, true, true, true, true, true, true, false, true, true,
    false, true, true, true, true, true, true, false, false,
];

/// The tables of the Khmer machine.
pub closed spec fn khmer_tables() -> MachineTables {
    MachineTables {
        trans_keys: KHMER_TRANS_KEYS@,
        char_class: KHMER_CHAR_CLASS@,
        index_offsets: KHMER_INDEX_OFFSETS@,
        indices: KHMER_INDICES@,
        index_defaults: KHMER_INDEX_DEFAULTS@,
        cond_targs: KHMER_COND_TARGS@,
        cond_actions: KHMER_COND_ACTIONS@,
        to_state_actions: KHMER_TO_STATE_ACTIONS@,
        from_state_actions: KHMER_FROM_STATE_ACTIONS@,
        eof_trans: KHMER_EOF_TRANS@,
        ops: KHMER_OPS@,
        act_kinds: KHMER_ACT_KINDS@,
        fresh: KHMER_FRESH@,
        act_set: KHMER_ACT_SET@,
        states: 43,
        transitions: 50,
        start: 21,
        from_code: 7,
        to_code: 6,
        min_cat: 1,
        max_cat: 27,
    }
}

/// The rows of states 0 to 24 are well formed.
proof fn lemma_rows_0_25()
    ensures
        forall|s: int| 0 <= s < 25 ==> #[trigger] khmer_tables().row_ok(s),
{
}

/// The rows of states 25 to 42 are well formed.
proof fn lemma_rows_25_43()
    ensures
        forall|s: int| 25 <= s < 43 ==> #[trigger] khmer_tables().row_ok(s),
{
}

/// The rows of states 0 to 24 keep the tokens tiling the text.
proof fn lemma_tiling_rows_0_25()
    ensures
        forall|s: int| 0 <= s < 25 ==> #[trigger] khmer_tables().row_tiles(s),
{
}

/// The rows of states 25 to 42 keep the tokens tiling the text.
proof fn lemma_tiling_rows_25_43()
    ensures
        forall|s: int| 25 <= s < 43 ==> #[trigger] khmer_tables().row_tiles(s),
{
}

/// The tokens of every scan of the Khmer machine tile the text.
pub proof fn lemma_khmer_tables_tile()
    ensures
        khmer_tables().tiles_text(),
{
    lemma_tiling_rows_0_25();
    lemma_tiling_rows_25_43();
}

/// The transitions are well formed.
proof fn lemma_transitions()
    ensures
        forall|t: int| 0 <= t < khmer_tables().transitions ==> #[trigger] khmer_tables().cond_targs[t] < khmer_tables().states,
        forall|t: int| 0 <= t < khmer_tables().transitions ==> #[trigger] khmer_tables().cond_actions[t] < khmer_tables().ops.len(),
{
}

/// The Khmer tables describe a machine that the scanner can run.
pub proof fn lemma_khmer_tables_wf()
    ensures
        khmer_tables().wf(),
{
    lemma_rows_0_25();
    lemma_rows_25_43();
    lemma_transitions();
}

pub fn khmer_machine() -> (m: SyllableMachine<'static>)
    ensures
        m@ == khmer_tables(),
{
    SyllableMachine {
        trans_keys: &KHMER_TRANS_KEYS,
        char_class: &KHMER_CHAR_CLASS,
        index_offsets: &KHMER_INDEX_OFFSETS,
        indices: &KHMER_INDICES,
        index_defaults: &KHMER_INDEX_DEFAULTS,
        cond_targs: &KHMER_COND_TARGS,
        cond_actions: &KHMER_COND_ACTIONS,
        to_state_actions: &KHMER_TO_STATE_ACTIONS,
        from_state_actions: &KHMER_FROM_STATE_ACTIONS,
        eof_trans: &KHMER_EOF_TRANS,
        ops: &KHMER_OPS,
        act_kinds: &KHMER_ACT_KINDS,
        fresh: &KHMER_FRESH,
        act_set: &KHMER_ACT_SET,
        states: 43,
        transitions: 50,
        start: 21,
        from_code: 7,
        to_code: 6,
        min_cat: 1,
        max_cat: 27,
    }
}
} // verus!
