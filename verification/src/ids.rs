//! Fresh ids for new nodes: version-7 UUIDs drawn from the clock, taken as
//! their 128-bit values.
use vstd::prelude::*;

verus! {

/// Where new node ids come from. It remembers the last id it gave, so that
/// the ids it gives can be told apart: each is greater than the one before.
pub struct IdSource {
    last: Ghost<Option<u128>>,
}

impl IdSource {
    /// The last id given, if any.
    pub closed spec fn last(&self) -> Option<u128> {
        self.last@
    }

    /// A source that has given no id yet.
    pub fn new() -> (s: IdSource)
        ensures
            s.last() is None,
    {
        IdSource { last: Ghost(None) }
    }

    /// `uuid::Uuid::now_v7`, taken as its 128-bit (big-endian) value. The
    /// crate's documentation promises that all the UUIDs one process makes
    /// through it are ordered by their creation (a shared counter within each
    /// millisecond); since UUIDs order as their big-endian values, each id is
    /// greater than the one drawn before it. Nothing else is stated of the
    /// value: it comes from the clock and a random source.
    #[verifier::external_body]
    pub(crate) fn next_id(&mut self) -> (id: u128)
        ensures
            final(self).last() == Some(id),
            old(self).last() matches Some(p) ==> p < id,
    {
        uuid::Uuid::now_v7().as_u128()
    }
}

} // verus!
