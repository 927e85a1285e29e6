use vstd::prelude::*;

verus! {

/// One retention rule: indices matching the name pattern are deleted once
/// the date embedded in their name is `duration_days` or more days old.
pub struct TargetIndex {
    pub index_name: String,
    pub duration_days: u32,
}

impl TargetIndex {
    pub fn new(index_name: String, duration_days: u32) -> (r: TargetIndex)
        ensures
            r == (TargetIndex { index_name, duration_days }),
    {
        TargetIndex { index_name, duration_days }
    }

    pub fn index_name(&self) -> (r: &String)
        ensures
            r == &self.index_name,
    {
        &self.index_name
    }

    pub fn duration_days(&self) -> (r: u32)
        ensures
            r == self.duration_days,
    {
        self.duration_days
    }
}

/// The full rule list for one batch run, as loaded from configuration.
pub struct TargetIndexList {
    pub index: Vec<TargetIndex>,
}

impl TargetIndexList {
    pub fn new(index: Vec<TargetIndex>) -> (r: TargetIndexList)
        ensures
            r == (TargetIndexList { index }),
    {
        TargetIndexList { index }
    }

    pub fn index(&self) -> (r: &Vec<TargetIndex>)
        ensures
            r == &self.index,
    {
        &self.index
    }
}

} // verus!
