//! The range flags that an AAT morph pass reads as it walks a buffer.
use vstd::prelude::*;

verus! {

/// The feature flags that apply to a range of clusters.
#[derive(Clone, Copy, PartialEq, Eq, Debug, Structural)]
pub struct range_flags_t {
    pub flags: u32,
    pub cluster_first: u32,
    pub cluster_last: u32,
}

/// The range flags of a pass, if any, and the index of the current range.
pub struct range_flag_t_wrapper<'a> {
    pub range_flags: Option<&'a [range_flags_t]>,
    pub range_flags_index: usize,
}

impl<'a> range_flag_t_wrapper<'a> {
    /// No range flags, at index 0.
    pub fn new() -> (r: Self)
        ensures
            r.range_flags is None,
            r.range_flags_index == 0,
    {
        Self { range_flags: None, range_flags_index: 0 }
    }

    /// Sets the range flags; the index is kept.
    pub fn set_range_flags(&mut self, range_flags: &'a [range_flags_t])
        ensures
            final(self).range_flags == Some(range_flags),
            final(self).range_flags_index == old(self).range_flags_index,
    {
        self.range_flags = Some(range_flags);
    }

    /// Sets the index of the current range; the flags are kept.
    pub fn set_range_flags_index(&mut self, index: usize)
        ensures
            final(self).range_flags == old(self).range_flags,
            final(self).range_flags_index == index,
    {
        self.range_flags_index = index;
    }

    /// The range flags from the current index on; `None` without flags or
    /// with an index past their end.
    pub fn get(&self) -> (r: Option<&[range_flags_t]>)
        ensures
            match self.range_flags {
                Some(f) => if self.range_flags_index <= f@.len() {
                    r matches Some(s) && s@ == f@.subrange(self.range_flags_index as int, f@.len() as int)
                } else {
                    r is None
                },
                None => r is None,
            },
    {
        let index = self.range_flags_index;
        match self.range_flags {
            Some(range_flags) => {
                if index <= range_flags.len() {
                    Some(vstd::slice::slice_subrange(range_flags, index, range_flags.len()))
                } else {
                    None
                }
            },
            None => None,
        }
    }
}

} // verus!
