//! The tables of the Universal Shaping Engine syllable machine.
use vstd::prelude::*;
use crate::syllable_machine::{SyllableMachine, MachineTables};

verus! {

pub const USE_TRANS_KEYS: [u16; 124] = [
    0, 36, 26, 27, 27, 27, 5, 33, 5, 33, 1, 1, 9, 33, 10, 33, 11, 32, 12, 32,
    13, 32, 30, 31, 31, 31, 11, 33, 11, 33, 11, 33, 1, 1, 11, 33, 10, 33, 10, 33,
    10, 33, 9, 33, 9, 33, 9, 33, 5, 33, 1, 33, 7, 7, 3, 3, 5, 33, 5, 33,
    1, 1, 9, 33, 10, 33, 11, 32, 12, 32, 13, 32, 30, 31, 31, 31, 11, 33, 11, 33,
    11, 33, 1, 1, 11, 33, 10, 33, 10, 33, 10, 33, 9, 33, 9, 33, 9, 33, 5, 33,
    1, 33, 3, 3, 7, 7, 1, 33, 5, 33, 26, 27, 27, 27, 1, 4, 35, 37, 34, 37,
    34, 36, 0, 0,
];

pub const USE_CHAR_CLASS: [u16; 55] = [
    0, 1, 2, 2, 3, 4, 2, 2, 2, 2, 2, 5, 6, 7, 2, 2, 2, 2, 8, 2,
    2, 2, 9, 10, 11, 12, 13, 14, 15, 16, 17, 18, 19, 20, 21, 22, 2, 23, 24, 25,
    2, 26, 27, 28, 29, 30, 31, 32, 33, 34, 35, 36, 37, 0, 0,
];

pub const USE_INDEX_OFFSETS: [u16; 63] = [
    0, 37, 39, 40, 69, 98, 99, 124, 148, 170, 191, 211, 213, 214, 237, 260, 283, 284, 307, 331,
    355, 379, 404, 429, 454, 483, 516, 517, 518, 547, 576, 577, 602, 626, 648, 669, 689, 691, 692, 715,
    738, 761, 762, 785, 809, 833, 857, 882, 907, 932, 961, 994, 995, 996, 1029, 1058, 1060, 1061, 1065, 1068,
    1072, 0, 0,
];

pub const USE_INDICES: [u16; 1077] = [
    1, 2, 3, 4, 5, 6, 7, 8, 9, 10, 11, 12, 13, 14, 15, 16, 10, 17, 18, 19,
    20, 21, 22, 23, 24, 25, 26, 27, 28, 29, 30, 31, 32, 7, 33, 3, 34, 1, 36, 36,
    38, 39, 37, 37, 40, 41, 42, 43, 44, 45, 46, 40, 47, 2, 48, 49, 50, 51, 52, 53,
    54, 37, 37, 37, 55, 56, 57, 58, 39, 38, 39, 37, 37, 40, 41, 42, 43, 44, 45, 46,
    40, 47, 48, 48, 49, 50, 51, 52, 53, 54, 37, 37, 37, 55, 56, 57, 58, 39, 38, 40,
    41, 42, 43, 44, 37, 37, 37, 37, 37, 37, 49, 50, 51, 52, 53, 54, 37, 37, 37, 41,
    56, 57, 58, 60, 41, 42, 43, 44, 37, 37, 37, 37, 37, 37, 37, 37, 37, 52, 53, 54,
    37, 37, 37, 37, 56, 57, 58, 60, 42, 43, 44, 37, 37, 37, 37, 37, 37, 37, 37, 37,
    37, 37, 37, 37, 37, 37, 37, 56, 57, 58, 43, 44, 37, 37, 37, 37, 37, 37, 37, 37,
    37, 37, 37, 37, 37, 37, 37, 37, 56, 57, 58, 44, 37, 37, 37, 37, 37, 37, 37, 37,
    37, 37, 37, 37, 37, 37, 37, 37, 56, 57, 58, 56, 57, 57, 42, 43, 44, 37, 37, 37,
    37, 37, 37, 37, 37, 37, 52, 53, 54, 37, 37, 37, 37, 56, 57, 58, 60, 42, 43, 44,
    37, 37, 37, 37, 37, 37, 37, 37, 37, 37, 53, 54, 37, 37, 37, 37, 56, 57, 58, 60,
    42, 43, 44, 37, 37, 37, 37, 37, 37, 37, 37, 37, 37, 37, 54, 37, 37, 37, 37, 56,
    57, 58, 60, 62, 42, 43, 44, 37, 37, 37, 37, 37, 37, 37, 37, 37, 37, 37, 37, 37,
    37, 37, 37, 56, 57, 58, 60, 41, 42, 43, 44, 37, 37, 37, 37, 37, 37, 49, 50, 51,
    52, 53, 54, 37, 37, 37, 41, 56, 57, 58, 60, 41, 42, 43, 44, 37, 37, 37, 37, 37,
    37, 37, 50, 51, 52, 53, 54, 37, 37, 37, 41, 56, 57, 58, 60, 41, 42, 43, 44, 37,
    37, 37, 37, 37, 37, 37, 37, 51, 52, 53, 54, 37, 37, 37, 41, 56, 57, 58, 60, 40,
    41, 42, 43, 44, 37, 46, 40, 37, 37, 37, 49, 50, 51, 52, 53, 54, 37, 37, 37, 41,
    56, 57, 58, 60, 40, 41, 42, 43, 44, 37, 37, 40, 37, 37, 37, 49, 50, 51, 52, 53,
    54, 37, 37, 37, 41, 56, 57, 58, 60, 40, 41, 42, 43, 44, 45, 46, 40, 37, 37, 37,
    49, 50, 51, 52, 53, 54, 37, 37, 37, 41, 56, 57, 58, 60, 38, 39, 37, 37, 40, 41,
    42, 43, 44, 45, 46, 40, 47, 37, 48, 49, 50, 51, 52, 53, 54, 37, 37, 37, 55, 56,
    57, 58, 39, 38, 59, 59, 59, 59, 59, 59, 59, 59, 41, 42, 43, 44, 59, 59, 59, 59,
    59, 59, 59, 59, 59, 52, 53, 54, 59, 59, 59, 59, 56, 57, 58, 60, 64, 4, 38, 39,
    37, 37, 40, 41, 42, 43, 44, 45, 46, 40, 47, 2, 48, 49, 50, 51, 52, 53, 54, 1,
    36, 37, 55, 56, 57, 58, 39, 6, 7, 66, 66, 10, 11, 12, 13, 14, 15, 16, 10, 17,
    19, 19, 20, 21, 22, 23, 24, 25, 66, 66, 66, 29, 30, 31, 32, 7, 6, 10, 11, 12,
    13, 14, 66, 66, 66, 66, 66, 66, 20, 21, 22, 23, 24, 25, 66, 66, 66, 11, 30, 31,
    32, 67, 11, 12, 13, 14, 66, 66, 66, 66, 66, 66, 66, 66, 66, 23, 24, 25, 66, 66,
    66, 66, 30, 31, 32, 67, 12, 13, 14, 66, 66, 66, 66, 66, 66, 66, 66, 66, 66, 66,
    66, 66, 66, 66, 66, 30, 31, 32, 13, 14, 66, 66, 66, 66, 66, 66, 66, 66, 66, 66,
    66, 66, 66, 66, 66, 66, 30, 31, 32, 14, 66, 66, 66, 66, 66, 66, 66, 66, 66, 66,
    66, 66, 66, 66, 66, 66, 30, 31, 32, 30, 31, 31, 12, 13, 14, 66, 66, 66, 66, 66,
    66, 66, 66, 66, 23, 24, 25, 66, 66, 66, 66, 30, 31, 32, 67, 12, 13, 14, 66, 66,
    66, 66, 66, 66, 66, 66, 66, 66, 24, 25, 66, 66, 66, 66, 30, 31, 32, 67, 12, 13,
    14, 66, 66, 66, 66, 66, 66, 66, 66, 66, 66, 66, 25, 66, 66, 66, 66, 30, 31, 32,
    67, 68, 12, 13, 14, 66, 66, 66, 66, 66, 66, 66, 66, 66, 66, 66, 66, 66, 66, 66,
    66, 30, 31, 32, 67, 11, 12, 13, 14, 66, 66, 66, 66, 66, 66, 20, 21, 22, 23, 24,
    25, 66, 66, 66, 11, 30, 31, 32, 67, 11, 12, 13, 14, 66, 66, 66, 66, 66, 66, 66,
    21, 22, 23, 24, 25, 66, 66, 66, 11, 30, 31, 32, 67, 11, 12, 13, 14, 66, 66, 66,
    66, 66, 66, 66, 66, 22, 23, 24, 25, 66, 66, 66, 11, 30, 31, 32, 67, 10, 11, 12,
    13, 14, 66, 16, 10, 66, 66, 66, 20, 21, 22, 23, 24, 25, 66, 66, 66, 11, 30, 31,
    32, 67, 10, 11, 12, 13, 14, 66, 66, 10, 66, 66, 66, 20, 21, 22, 23, 24, 25, 66,
    66, 66, 11, 30, 31, 32, 67, 10, 11, 12, 13, 14, 15, 16, 10, 66, 66, 66, 20, 21,
    22, 23, 24, 25, 66, 66, 66, 11, 30, 31, 32, 67, 6, 7, 66, 66, 10, 11, 12, 13,
    14, 15, 16, 10, 17, 66, 19, 20, 21, 22, 23, 24, 25, 66, 66, 66, 29, 30, 31, 32,
    7, 6, 66, 66, 66, 66, 66, 66, 66, 66, 11, 12, 13, 14, 66, 66, 66, 66, 66, 66,
    66, 66, 66, 23, 24, 25, 66, 66, 66, 66, 30, 31, 32, 67, 69, 8, 2, 66, 66, 2,
    6, 7, 8, 66, 10, 11, 12, 13, 14, 15, 16, 10, 17, 18, 19, 20, 21, 22, 23, 24,
    25, 26, 27, 66, 29, 30, 31, 32, 7, 6, 7, 66, 66, 10, 11, 12, 13, 14, 15, 16,
    10, 17, 18, 19, 20, 21, 22, 23, 24, 25, 66, 66, 66, 29, 30, 31, 32, 7, 26, 27,
    27, 2, 70, 70, 2, 72, 71, 33, 33, 72, 71, 72, 33, 71, 34, 0, 0,
];

pub const USE_INDEX_DEFAULTS: [u16; 63] = [
    3, 35, 35, 37, 37, 59, 37, 37, 37, 37, 37, 37, 37, 37, 37, 37, 61, 37, 37, 37,
    37, 37, 37, 37, 37, 59, 63, 65, 37, 66, 66, 66, 66, 66, 66, 66, 66, 66, 66, 66,
    66, 66, 66, 66, 66, 66, 66, 66, 66, 66, 66, 66, 66, 66, 66, 66, 66, 70, 71, 71,
    71, 0, 0,
];

pub const USE_COND_TARGS: [u16; 75] = [
    0, 1, 3, 0, 26, 28, 29, 30, 51, 53, 31, 32, 33, 34, 35, 46, 47, 48, 54, 49,
    43, 44, 45, 38, 39, 40, 55, 56, 57, 50, 36, 37, 0, 58, 60, 0, 2, 0, 4, 5,
    6, 7, 8, 9, 10, 21, 22, 23, 24, 18, 19, 20, 13, 14, 15, 25, 11, 12, 0, 0,
    16, 0, 17, 0, 27, 0, 0, 41, 42, 52, 0, 0, 59, 0, 0,
];

pub const USE_COND_ACTIONS: [u16; 75] = [
    0, 0, 0, 3, 0, 0, 0, 0, 0, 0, 0, 0, 0, 0, 0, 0, 0, 0, 0, 0,
    0, 0, 0, 0, 0, 0, 0, 0, 0, 0, 0, 0, 4, 0, 0, 5, 0, 6, 0, 0,
    0, 0, 0, 0, 0, 0, 0, 0, 0, 0, 0, 0, 0, 0, 0, 0, 0, 0, 7, 8,
    0, 9, 0, 10, 0, 11, 12, 0, 0, 0, 13, 14, 0, 0, 0,
];

pub const USE_TO_STATE_ACTIONS: [u16; 63] = [
    1, 0, 0, 0, 0, 0, 0, 0, 0, 0, 0, 0, 0, 0, 0, 0, 0, 0, 0, 0,
    0, 0, 0, 0, 0, 0, 0, 0, 0, 0, 0, 0, 0, 0, 0, 0, 0, 0, 0, 0,
    0, 0, 0, 0, 0, 0, 0, 0, 0, 0, 0, 0, 0, 0, 0, 0, 0, 0, 0, 0,
    0, 0, 0,
];

pub const USE_FROM_STATE_ACTIONS: [u16; 63] = [
    2, 0, 0, 0, 0, 0, 0, 0, 0, 0, 0, 0, 0, 0, 0, 0, 0, 0, 0, 0,
    0, 0, 0, 0, 0, 0, 0, 0, 0, 0, 0, 0, 0, 0, 0, 0, 0, 0, 0, 0,
    0, 0, 0, 0, 0, 0, 0, 0, 0, 0, 0, 0, 0, 0, 0, 0, 0, 0, 0, 0,
    0, 0, 0,
];

pub const USE_EOF_TRANS: [u16; 63] = [
    1, 36, 36, 38, 38, 60, 38, 38, 38, 38, 38, 38, 38, 38, 38, 38, 62, 38, 38, 38,
    38, 38, 38, 38, 38, 60, 64, 66, 38, 67, 67, 67, 67, 67, 67, 67, 67, 67, 67, 67,
    67, 67, 67, 67, 67, 67, 67, 67, 67, 67, 67, 67, 67, 67, 67, 67, 67, 71, 72, 72,
    72, 0, 0,
];

pub const USE_OPS: [u16; 15] = [
    0, 0, 0, 147, 131, 100, 52, 51, 20, 36, 84, 68, 132, 148, 116,
];

pub const USE_ACT_KINDS: [u8; 1] = [255];

pub const USE_ACT_SET: [bool; 63] = [
    false, false, false, false, false, false, false, false, false, false, false, false,
    false, false, false, false, false, false, false, false, false, false, false, false,
    false, false, false, false, false, false, false, false, false, false, false, false,
    false, false, false, false, false, false, false, false, false, false, false, false,
    false, false, false, false, false, false, false, false, false, false, false, false,
    false, false, false,
];

pub const USE_FRESH: [bool; 63] = [
    false, false, false, false, false, false, false, false, false, false, false, false,
    false, false, false, false, false, false, false, false, false, false, false, false,
    false, false, false, false, false, false, false, false, false, false, false, false,
    false, false, false, false, false, false, false, false, false, false, false, false,
    false, false, false, false, false, false, false, false, false, false, false, false,
    false, false, false,
];

/// The tables of the Universal Shaping Engine machine.
pub closed spec fn use_tables() -> MachineTables {
    MachineTables {
        trans_keys: USE_TRANS_KEYS@,
        char_class: USE_CHAR_CLASS@,
        index_offsets: USE_INDEX_OFFSETS@,
        indices: USE_INDICES@,
        index_defaults: USE_INDEX_DEFAULTS@,
        cond_targs: USE_COND_TARGS@,
        cond_actions: USE_COND_ACTIONS@,
        to_state_actions: USE_TO_STATE_ACTIONS@,
        from_state_actions: USE_FROM_STATE_ACTIONS@,
        eof_trans: USE_EOF_TRANS@,
        ops: USE_OPS@,
        act_kinds: USE_ACT_KINDS@,
        fresh: USE_FRESH@,
        act_set: USE_ACT_SET@,
        states: 61,
        transitions: 73,
        start: 0,
        from_code: 2,
        to_code: 1,
        min_cat: 0,
        max_cat: 52,
    }
}

/// The rows of states 0 to 24 are well formed.
proof fn lemma_rows_0_25()
    ensures
        forall|s: int| 0 <= s < 25 ==> #[trigger] use_tables().row_ok(s),
{
}

/// The rows of states 25 to 49 are well formed.
proof fn lemma_rows_25_50()
    ensures
        forall|s: int| 25 <= s < 50 ==> #[trigger] use_tables().row_ok(s),
{
}

/// The rows of states 50 to 60 are well formed.
proof fn lemma_rows_50_61()
    ensures
        forall|s: int| 50 <= s < 61 ==> #[trigger] use_tables().row_ok(s),
{
}

/// The rows of states 0 to 24 keep the tokens tiling the text.
proof fn lemma_tiling_rows_0_25()
    ensures
        forall|s: int| 0 <= s < 25 ==> #[trigger] use_tables().row_tiles(s),
{
}

/// The rows of states 25 to 49 keep the tokens tiling the text.
proof fn lemma_tiling_rows_25_50()
    ensures
        forall|s: int| 25 <= s < 50 ==> #[trigger] use_tables().row_tiles(s),
{
}

/// The rows of states 50 to 60 keep the tokens tiling the text.
proof fn lemma_tiling_rows_50_61()
    ensures
        forall|s: int| 50 <= s < 61 ==> #[trigger] use_tables().row_tiles(s),
{
}

/// The tokens of every scan of the Universal Shaping Engine machine tile the text.
pub proof fn lemma_use_tables_tile()
    ensures
        use_tables().tiles_text(),
{
    lemma_tiling_rows_0_25();
    lemma_tiling_rows_25_50();
    lemma_tiling_rows_50_61();
}

/// The transitions are well formed.
proof fn lemma_transitions()
    ensures
        forall|t: int| 0 <= t < use_tables().transitions ==> #[trigger] use_tables().cond_targs[t] < use_tables().states,
        forall|t: int| 0 <= t < use_tables().transitions ==> #[trigger] use_tables().cond_actions[t] < use_tables().ops.len(),
{
}

/// The Universal Shaping Engine tables describe a machine that the scanner can run.
pub proof fn lemma_use_tables_wf()
    ensures
        use_tables().wf(),
{
    lemma_rows_0_25();
    lemma_rows_25_50();
    lemma_rows_50_61();
    lemma_transitions();
}

pub fn use_machine() -> (m: SyllableMachine<'static>)
    ensures
        m@ == use_tables(),
{
    SyllableMachine {
        trans_keys: &USE_TRANS_KEYS,
        char_class: &USE_CHAR_CLASS,
        index_offsets: &USE_INDEX_OFFSETS,
        indices: &USE_INDICES,
        index_defaults: &USE_INDEX_DEFAULTS,
        cond_targs: &USE_COND_TARGS,
        cond_actions: &USE_COND_ACTIONS,
        to_state_actions: &USE_TO_STATE_ACTIONS,
        from_state_actions: &USE_FROM_STATE_ACTIONS,
        eof_trans: &USE_EOF_TRANS,
        ops: &USE_OPS,
        act_kinds: &USE_ACT_KINDS,
        fresh: &USE_FRESH,
        act_set: &USE_ACT_SET,
        states: 61,
        transitions: 73,
        start: 0,
        from_code: 2,
        to_code: 1,
        min_cat: 0,
        max_cat: 52,
    }
}
} // verus!
