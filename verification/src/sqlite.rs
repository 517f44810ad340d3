use vstd::prelude::*;
use vstd::string::StringExecFns;

use crate::provider::{Provider, ProviderError, ProviderKind};

verus! {

/// A local store of identifiers already seen, kept fully in memory.
/// It answers the provider capability directly: a check reports whether an
/// identifier is new here, and a send records it.
pub struct Sqlite {
    ids: Vec<String>,
}

impl Sqlite {
    /// The identifiers recorded so far, in insertion order.
    pub closed spec fn spec_ids(&self) -> Seq<Seq<char>> {
        self.ids.deep_view()
    }

    /// Whether an identifier is recorded.
    pub open spec fn spec_contains(&self, id: Seq<char>) -> bool {
        exists|j: int| 0 <= j < self.spec_ids().len() && self.spec_ids()[j] == id
    }

    /// Open an empty local store.
    pub fn new() -> (r: Self)
        ensures
            r.spec_ids().len() == 0,
    {
        Sqlite { ids: Vec::new() }
    }

    /// True when the identifier is new to this store; the store is not changed.
    pub fn check_id(&self, avatar_id: &String) -> (r: bool)
        ensures
            r == !self.spec_contains(avatar_id@),
    {
        !self.contains(avatar_id)
    }

    /// Record the identifier; true when it was not recorded before.
    pub fn record_id(&mut self, avatar_id: &String) -> (r: bool)
        ensures
            r == !old(self).spec_contains(avatar_id@),
            r ==> final(self).spec_ids() == old(self).spec_ids().push(avatar_id@),
            !r ==> final(self).spec_ids() == old(self).spec_ids(),
            final(self).spec_contains(avatar_id@),
    {
        if self.contains(avatar_id) {
            false
        } else {
            self.ids.push(avatar_id.clone());
            assert(self.spec_ids() =~= old(self).spec_ids().push(avatar_id@));
            assert(self.spec_ids()[self.spec_ids().len() - 1] == avatar_id@);
            true
        }
    }

    /// Whether `avatar_id` is recorded in this store.
    fn contains(&self, avatar_id: &String) -> (r: bool)
        ensures
            r == self.spec_contains(avatar_id@),
    {
        let mut j: usize = 0;
        while j < self.ids.len()
            invariant
                j <= self.ids.len(),
                forall|k: int| 0 <= k < j ==> self.spec_ids()[k] != avatar_id@,
        decreases self.ids.len() - j,
        {
            if self.ids[j] == *avatar_id {
                assert(self.spec_ids()[j as int] == avatar_id@);
                return true;
            }
            j = j + 1;
        }
        false
    }
}

impl Provider for Sqlite {
    fn kind(&self) -> ProviderKind {
        ProviderKind::CACHE
    }

    /// True when the identifier is new to this store.
    fn check_avatar_id(&mut self, avatar_id: &str) -> Result<bool, ProviderError> {
        let owned = <String as StringExecFns>::from_str(avatar_id);
        Ok(self.check_id(&owned))
    }

    /// Record the identifier; true when it was not recorded before.
    fn send_avatar_id(&mut self, avatar_id: &str) -> Result<bool, ProviderError> {
        let owned = <String as StringExecFns>::from_str(avatar_id);
        Ok(self.record_id(&owned))
    }
}

} // verus!
