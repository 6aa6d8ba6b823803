//! The tables of the Myanmar syllable machine.
use vstd::prelude::*;
use crate::syllable_machine::{SyllableMachine, MachineTables};

verus! {

pub const MYANMAR_TRANS_KEYS: [u16; 114] = [
    0, 22, 1, 22, 3, 19, 3, 5, 3, 19, 1, 15, 3, 15, 3, 15, 1, 22, 1, 19,
    1, 19, 1, 19, 1, 22, 0, 8, 1, 22, 1, 22, 1, 19, 1, 19, 1, 19, 1, 20,
    1, 19, 1, 22, 1, 22, 1, 22, 1, 22, 1, 22, 3, 19, 3, 5, 3, 19, 1, 15,
    3, 15, 3, 15, 1, 22, 1, 19, 1, 19, 1, 19, 1, 22, 0, 8, 1, 22, 1, 22,
    1, 22, 1, 19, 1, 19, 1, 19, 1, 20, 1, 19, 1, 22, 1, 22, 1, 22, 1, 22,
    1, 22, 1, 22, 1, 22, 0, 22, 0, 8, 5, 5, 0, 0,
];

pub const MYANMAR_CHAR_CLASS: [u16; 35] = [
    0, 0, 1, 2, 3, 3, 4, 5, 4, 6, 7, 4, 4, 4, 4, 8, 4, 9, 10, 4,
    11, 12, 13, 14, 15, 16, 17, 18, 19, 20, 21, 7, 22, 0, 0,
];

pub const MYANMAR_INDEX_OFFSETS: [u16; 58] = [
    0, 23, 45, 62, 65, 82, 97, 110, 123, 145, 164, 183, 202, 224, 233, 255, 277, 296, 315, 334,
    354, 373, 395, 417, 439, 461, 483, 500, 503, 520, 535, 548, 561, 583, 602, 621, 640, 662, 671, 693,
    715, 737, 756, 775, 794, 814, 833, 855, 877, 899, 921, 943, 965, 987, 1010, 1019, 0, 0,
];

pub const MYANMAR_INDICES: [u16; 1022] = [
    2, 3, 4, 5, 1, 6, 7, 2, 8, 9, 10, 11, 12, 13, 14, 15, 16, 17, 18, 19,
    20, 21, 22, 24, 25, 26, 23, 27, 28, 23, 23, 29, 23, 30, 31, 32, 33, 34, 35, 36,
    37, 38, 39, 23, 40, 26, 23, 27, 23, 23, 23, 41, 23, 23, 23, 23, 23, 34, 23, 23,
    23, 38, 26, 23, 27, 26, 23, 27, 23, 23, 23, 23, 23, 23, 23, 23, 23, 34, 23, 23,
    23, 38, 42, 23, 26, 23, 27, 34, 23, 23, 43, 23, 23, 23, 23, 23, 34, 26, 23, 27,
    23, 23, 23, 43, 23, 23, 23, 23, 23, 34, 26, 23, 27, 23, 23, 23, 23, 23, 23, 23,
    23, 23, 34, 24, 23, 26, 23, 27, 28, 23, 23, 44, 23, 45, 23, 23, 23, 34, 46, 23,
    23, 38, 23, 23, 44, 24, 23, 26, 23, 27, 28, 23, 23, 23, 23, 23, 23, 23, 23, 34,
    23, 23, 23, 38, 24, 23, 26, 23, 27, 28, 23, 23, 44, 23, 23, 23, 23, 23, 34, 46,
    23, 23, 38, 24, 23, 26, 23, 27, 28, 23, 23, 23, 23, 23, 23, 23, 23, 34, 46, 23,
    23, 38, 24, 23, 26, 23, 27, 28, 23, 23, 44, 23, 23, 23, 23, 23, 34, 46, 23, 23,
    38, 23, 23, 44, 2, 23, 23, 23, 23, 23, 23, 23, 2, 24, 23, 26, 23, 27, 28, 23,
    23, 29, 23, 30, 31, 32, 33, 34, 35, 36, 37, 38, 23, 23, 40, 24, 23, 26, 23, 27,
    28, 23, 23, 47, 23, 23, 23, 23, 23, 34, 35, 36, 37, 38, 23, 23, 40, 24, 23, 26,
    23, 27, 28, 23, 23, 23, 23, 23, 23, 23, 23, 34, 35, 36, 37, 38, 24, 23, 26, 23,
    27, 28, 23, 23, 23, 23, 23, 23, 23, 23, 34, 35, 36, 23, 38, 24, 23, 26, 23, 27,
    28, 23, 23, 23, 23, 23, 23, 23, 23, 34, 23, 36, 23, 38, 24, 23, 26, 23, 27, 28,
    23, 23, 23, 23, 23, 23, 23, 23, 34, 35, 36, 37, 38, 47, 24, 23, 26, 23, 27, 28,
    23, 23, 47, 23, 23, 23, 23, 23, 34, 35, 36, 37, 38, 24, 23, 26, 23, 27, 28, 23,
    23, 23, 23, 30, 23, 32, 23, 34, 35, 36, 37, 38, 23, 23, 40, 24, 23, 26, 23, 27,
    28, 23, 23, 47, 23, 30, 23, 23, 23, 34, 35, 36, 37, 38, 23, 23, 40, 24, 23, 26,
    23, 27, 28, 23, 23, 48, 23, 30, 31, 32, 23, 34, 35, 36, 37, 38, 23, 23, 40, 24,
    23, 26, 23, 27, 28, 23, 23, 23, 23, 30, 31, 32, 23, 34, 35, 36, 37, 38, 23, 23,
    40, 24, 25, 26, 23, 27, 28, 23, 23, 29, 23, 30, 31, 32, 33, 34, 35, 36, 37, 38,
    23, 23, 40, 50, 49, 6, 49, 49, 49, 51, 49, 49, 49, 49, 49, 15, 49, 49, 49, 19,
    50, 49, 6, 50, 49, 6, 49, 49, 49, 49, 49, 49, 49, 49, 49, 15, 49, 49, 49, 19,
    52, 49, 50, 49, 6, 15, 49, 49, 53, 49, 49, 49, 49, 49, 15, 50, 49, 6, 49, 49,
    49, 53, 49, 49, 49, 49, 49, 15, 50, 49, 6, 49, 49, 49, 49, 49, 49, 49, 49, 49,
    15, 3, 49, 50, 49, 6, 7, 49, 49, 54, 49, 55, 49, 49, 49, 15, 56, 49, 49, 19,
    49, 49, 54, 3, 49, 50, 49, 6, 7, 49, 49, 49, 49, 49, 49, 49, 49, 15, 49, 49,
    49, 19, 3, 49, 50, 49, 6, 7, 49, 49, 54, 49, 49, 49, 49, 49, 15, 56, 49, 49,
    19, 3, 49, 50, 49, 6, 7, 49, 49, 49, 49, 49, 49, 49, 49, 15, 56, 49, 49, 19,
    3, 49, 50, 49, 6, 7, 49, 49, 54, 49, 49, 49, 49, 49, 15, 56, 49, 49, 19, 49,
    49, 54, 57, 49, 49, 49, 49, 49, 49, 49, 57, 3, 4, 50, 49, 6, 7, 49, 49, 9,
    49, 11, 12, 13, 14, 15, 16, 17, 18, 19, 20, 49, 22, 3, 49, 50, 49, 6, 7, 49,
    49, 9, 49, 11, 12, 13, 14, 15, 16, 17, 18, 19, 49, 49, 22, 3, 49, 50, 49, 6,
    7, 49, 49, 58, 49, 49, 49, 49, 49, 15, 16, 17, 18, 19, 49, 49, 22, 3, 49, 50,
    49, 6, 7, 49, 49, 49, 49, 49, 49, 49, 49, 15, 16, 17, 18, 19, 3, 49, 50, 49,
    6, 7, 49, 49, 49, 49, 49, 49, 49, 49, 15, 16, 17, 49, 19, 3, 49, 50, 49, 6,
    7, 49, 49, 49, 49, 49, 49, 49, 49, 15, 49, 17, 49, 19, 3, 49, 50, 49, 6, 7,
    49, 49, 49, 49, 49, 49, 49, 49, 15, 16, 17, 18, 19, 58, 3, 49, 50, 49, 6, 7,
    49, 49, 58, 49, 49, 49, 49, 49, 15, 16, 17, 18, 19, 3, 49, 50, 49, 6, 7, 49,
    49, 49, 49, 11, 49, 13, 49, 15, 16, 17, 18, 19, 49, 49, 22, 3, 49, 50, 49, 6,
    7, 49, 49, 58, 49, 11, 49, 49, 49, 15, 16, 17, 18, 19, 49, 49, 22, 3, 49, 50,
    49, 6, 7, 49, 49, 59, 49, 11, 12, 13, 49, 15, 16, 17, 18, 19, 49, 49, 22, 3,
    49, 50, 49, 6, 7, 49, 49, 49, 49, 11, 12, 13, 49, 15, 16, 17, 18, 19, 49, 49,
    22, 3, 4, 50, 49, 6, 7, 49, 49, 9, 49, 11, 12, 13, 14, 15, 16, 17, 18, 19,
    49, 49, 22, 24, 25, 26, 23, 27, 28, 23, 23, 60, 23, 30, 31, 32, 33, 34, 35, 36,
    37, 38, 39, 23, 40, 24, 61, 26, 23, 27, 28, 23, 23, 29, 23, 30, 31, 32, 33, 34,
    35, 36, 37, 38, 23, 23, 40, 2, 3, 4, 50, 49, 6, 7, 2, 2, 9, 49, 11, 12,
    13, 14, 15, 16, 17, 18, 19, 20, 49, 22, 2, 62, 62, 62, 62, 62, 62, 2, 2, 63,
    0, 0,
];

pub const MYANMAR_INDEX_DEFAULTS: [u16; 58] = [
    1, 23, 23, 23, 23, 23, 23, 23, 23, 23, 23, 23, 23, 23, 23, 23, 23, 23, 23, 23,
    23, 23, 23, 23, 23, 23, 49, 49, 49, 49, 49, 49, 49, 49, 49, 49, 49, 49, 49, 49,
    49, 49, 49, 49, 49, 49, 49, 49, 49, 49, 49, 23, 23, 49, 62, 62, 0, 0,
];

pub const MYANMAR_COND_TARGS: [u16; 66] = [
    0, 0, 1, 26, 37, 0, 27, 33, 51, 39, 54, 40, 46, 47, 48, 29, 42, 43, 44, 32,
    50, 55, 45, 0, 2, 13, 0, 3, 9, 14, 15, 21, 22, 23, 5, 17, 18, 19, 8, 25,
    20, 4, 6, 7, 10, 12, 11, 16, 24, 0, 0, 28, 30, 31, 34, 36, 35, 38, 41, 49,
    52, 53, 0, 0, 0, 0,
];

pub const MYANMAR_COND_ACTIONS: [u16; 66] = [
    0, 3, 0, 0, 0, 4, 0, 0, 0, 0, 0, 0, 0, 0, 0, 0, 0, 0, 0, 0,
    0, 0, 0, 5, 0, 0, 6, 0, 0, 0, 0, 0, 0, 0, 0, 0, 0, 0, 0, 0,
    0, 0, 0, 0, 0, 0, 0, 0, 0, 7, 8, 0, 0, 0, 0, 0, 0, 0, 0, 0,
    0, 0, 9, 10, 0, 0,
];

pub const MYANMAR_TO_STATE_ACTIONS: [u16; 58] = [
    1, 0, 0, 0, 0, 0, 0, 0, 0, 0, 0, 0, 0, 0, 0, 0, 0, 0, 0, 0,
    0, 0, 0, 0, 0, 0, 0, 0, 0, 0, 0, 0, 0, 0, 0, 0, 0, 0, 0, 0,
    0, 0, 0, 0, 0, 0, 0, 0, 0, 0, 0, 0, 0, 0, 0, 0, 0, 0,
];

pub const MYANMAR_FROM_STATE_ACTIONS: [u16; 58] = [
    2, 0, 0, 0, 0, 0, 0, 0, 0, 0, 0, 0, 0, 0, 0, 0, 0, 0, 0, 0,
    0, 0, 0, 0, 0, 0, 0, 0, 0, 0, 0, 0, 0, 0, 0, 0, 0, 0, 0, 0,
    0, 0, 0, 0, 0, 0, 0, 0, 0, 0, 0, 0, 0, 0, 0, 0, 0, 0,
];

pub const MYANMAR_EOF_TRANS: [u16; 58] = [
    1, 24, 24, 24, 24, 24, 24, 24, 24, 24, 24, 24, 24, 24, 24, 24, 24, 24, 24, 24,
    24, 24, 24, 24, 24, 24, 50, 50, 50, 50, 50, 50, 50, 50, 50, 50, 50, 50, 50, 50,
    50, 50, 50, 50, 50, 50, 50, 50, 50, 50, 50, 24, 24, 50, 63, 63, 0, 0,
];

pub const MYANMAR_OPS: [u16; 11] = [
    0, 0, 0, 51, 51, 4, 3, 36, 35, 52, 19,
];

pub const MYANMAR_ACT_KINDS: [u8; 1] = [255];

pub const MYANMAR_ACT_SET: [bool; 58] = [
    false, false, false, false, false, false, false, false, false, false, false, false,
    false, false, false, false, false, false, false, false, false, false, false, false,
    false, false, false, false, false, false, false, false, false, false, false, false,
    false, false, false, false, false, false, false, false, false, false, false, false,
    false, false, false, false, false, false, false, false, false, false,
];

pub const MYANMAR_FRESH: [bool; 58] = [
    false, false, false, false, false, false, false, false, false, false, false, false,
    false, false, false, false, false, false, false, false, false, false, false, false,
    false, false, false, false, false, false, false, false, false, false, false, false,
    false, false, false, false, false, false, false, false, false, false, false, false,
    false, false, false, false, false, false, false, false, false, false,
];

/// The tables of the Myanmar machine.
pub closed spec fn myanmar_tables() -> MachineTables {
    MachineTables {
        trans_keys: MYANMAR_TRANS_KEYS@,
        char_class: MYANMAR_CHAR_CLASS@,
        index_offsets: MYANMAR_INDEX_OFFSETS@,
        indices: MYANMAR_INDICES@,
        index_defaults: MYANMAR_INDEX_DEFAULTS@,
        cond_targs: MYANMAR_COND_TARGS@,
        cond_actions: MYANMAR_COND_ACTIONS@,
        to_state_actions: MYANMAR_TO_STATE_ACTIONS@,
        from_state_actions: MYANMAR_FROM_STATE_ACTIONS@,
        eof_trans: MYANMAR_EOF_TRANS@,
        ops: MYANMAR_OPS@,
        act_kinds: MYANMAR_ACT_KINDS@,
        fresh: MYANMAR_FRESH@,
        act_set: MYANMAR_ACT_SET@,
        states: 56,
        transitions: 64,
        start: 0,
        from_code: 2,
        to_code: 1,
        min_cat: 1,
        max_cat: 33,
    }
}

/// The rows of states 0 to 24 are well formed.
proof fn lemma_rows_0_25()
    ensures
        forall|s: int| 0 <= s < 25 ==> #[trigger] myanmar_tables().row_ok(s),
{
}

/// The rows of states 25 to 49 are well formed.
proof fn lemma_rows_25_50()
    ensures
        forall|s: int| 25 <= s < 50 ==> #[trigger] myanmar_tables().row_ok(s),
{
}

/// The rows of states 50 to 55 are well formed.
proof fn lemma_rows_50_56()
    ensures
        forall|s: int| 50 <= s < 56 ==> #[trigger] myanmar_tables().row_ok(s),
{
}

/// The rows of states 0 to 24 keep the tokens tiling the text.
proof fn lemma_tiling_rows_0_25()
    ensures
        forall|s: int| 0 <= s < 25 ==> #[trigger] myanmar_tables().row_tiles(s),
{
}

/// The rows of states 25 to 49 keep the tokens tiling the text.
proof fn lemma_tiling_rows_25_50()
    ensures
        forall|s: int| 25 <= s < 50 ==> #[trigger] myanmar_tables().row_tiles(s),
{
}

/// The rows of states 50 to 55 keep the tokens tiling the text.
proof fn lemma_tiling_rows_50_56()
    ensures
        forall|s: int| 50 <= s < 56 ==> #[trigger] myanmar_tables().row_tiles(s),
{
}

/// The tokens of every scan of the Myanmar machine tile the text.
pub proof fn lemma_myanmar_tables_tile()
    ensures
        myanmar_tables().tiles_text(),
{
    lemma_tiling_rows_0_25();
    lemma_tiling_rows_25_50();
    lemma_tiling_rows_50_56();
}

/// The transitions are well formed.
proof fn lemma_transitions()
    ensures
        forall|t: int| 0 <= t < myanmar_tables().transitions ==> #[trigger] myanmar_tables().cond_targs[t] < myanmar_tables().states,
        forall|t: int| 0 <= t < myanmar_tables().transitions ==> #[trigger] myanmar_tables().cond_actions[t] < myanmar_tables().ops.len(),
{
}

/// The Myanmar tables describe a machine that the scanner can run.
pub proof fn lemma_myanmar_tables_wf()
    ensures
        myanmar_tables().wf(),
{
    lemma_rows_0_25();
    lemma_rows_25_50();
    lemma_rows_50_56();
    lemma_transitions();
}

pub fn myanmar_machine() -> (m: SyllableMachine<'static>)
    ensures
        m@ == myanmar_tables(),
{
    SyllableMachine {
        trans_keys: &MYANMAR_TRANS_KEYS,
        char_class: &MYANMAR_CHAR_CLASS,
        index_offsets: &MYANMAR_INDEX_OFFSETS,
        indices: &MYANMAR_INDICES,
        index_defaults: &MYANMAR_INDEX_DEFAULTS,
        cond_targs: &MYANMAR_COND_TARGS,
        cond_actions: &MYANMAR_COND_ACTIONS,
        to_state_actions: &MYANMAR_TO_STATE_ACTIONS,
        from_state_actions: &MYANMAR_FROM_STATE_ACTIONS,
        eof_trans: &MYANMAR_EOF_TRANS,
        ops: &MYANMAR_OPS,
        act_kinds: &MYANMAR_ACT_KINDS,
        fresh: &MYANMAR_FRESH,
        act_set: &MYANMAR_ACT_SET,
        states: 56,
        transitions: 64,
        start: 0,
        from_code: 2,
        to_code: 1,
        min_cat: 1,
        max_cat: 33,
    }
}
} // verus!
