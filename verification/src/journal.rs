//! The journal: where a repository would note what it is about to do, so
//! that a change to several objects takes effect as a whole or not at all.

use vstd::prelude::*;

verus! {

/// A journal.
pub trait Journal {

}

/// A journal that notes nothing and takes everything to go well. It
/// guarantees nothing: where a change to the ledger is cut short, nothing
/// mends it. It marks the place where a journal that does will stand.
#[derive(Clone, Copy, Debug, PartialEq, Eq, Structural)]
pub struct OptimisticDummyJournal {}

impl OptimisticDummyJournal {
    pub fn new() -> (r: Self)
        ensures
            r == (OptimisticDummyJournal {  }),
    {
        OptimisticDummyJournal {  }
    }
}

impl Journal for OptimisticDummyJournal {

}

} // verus!
