//! The registry of revoked token keys.

use crate::text::text_is;
use vstd::prelude::*;

verus! {

/// The keys of the tokens that were revoked before they expired. No key is
/// held twice.
pub struct RevocationRegistry {
    keys: Vec<String>,
}

impl View for RevocationRegistry {
    type V = Set<Seq<char>>;

    closed spec fn view(&self) -> Set<Seq<char>> {
        self.texts().to_set()
    }
}

impl RevocationRegistry {
    /// The keys as texts, in the order in which they were revoked.
    pub closed spec fn texts(&self) -> Seq<Seq<char>> {
        self.keys@.map_values(|key: String| key@)
    }

    #[verifier::type_invariant]
    spec fn no_key_twice(&self) -> bool {
        self.texts().no_duplicates()
    }

    /// A registry in which no key is revoked.
    pub fn new() -> (registry: RevocationRegistry)
        ensures
            registry@ == Set::<Seq<char>>::empty(),
    {
        let registry = RevocationRegistry { keys: Vec::new() };
        assert(registry.texts().to_set() =~= Set::<Seq<char>>::empty());
        registry
    }

    fn position(&self, token_key: &str) -> (at: Option<usize>)
        ensures
            match at {
                Some(i) => i < self.texts().len() && self.texts()[i as int] == token_key@,
                None => !self.texts().contains(token_key@),
            },
    {
        let mut i: usize = 0;
        while i < self.keys.len()
            invariant
                i <= self.keys.len(),
                forall|j: int| 0 <= j < i ==> self.texts()[j] != token_key@,
            decreases self.keys.len() - i,
        {
            if text_is(&self.keys[i], token_key) {
                return Some(i);
            }
            i += 1;
        }
        None
    }

    /// Whether the key was revoked.
    pub fn is_revoked(&self, token_key: &str) -> (revoked: bool)
        ensures
            revoked == self@.contains(token_key@),
    {
        self.position(token_key).is_some()
    }

    /// Revokes the key. Revoking a key again changes nothing.
    pub fn revoke(&mut self, token_key: String)
        ensures
            final(self)@ == old(self)@.insert(token_key@),
    {
        proof {
            use_type_invariant(&*self);
        }
        if self.position(token_key.as_str()).is_none() {
            let ghost before = self.texts();
            let mut taken = RevocationRegistry { keys: Vec::new() };
            core::mem::swap(self, &mut taken);
            let RevocationRegistry { keys } = taken;
            let mut keys = keys;
            keys.push(token_key);
            assert(keys@.map_values(|key: String| key@) =~= before.push(token_key@));
            *self = RevocationRegistry { keys };
            assert(self.texts() =~= before.push(token_key@));
            assert(self.texts().to_set() =~= before.to_set().insert(token_key@)) by {
                assert forall|k: Seq<char>|
                    self.texts().to_set().contains(k) <==> before.to_set().insert(
                        token_key@,
                    ).contains(k) by {
                    if before.push(token_key@).contains(k) {
                        let i = choose|i: int|
                            0 <= i < before.push(token_key@).len() && before.push(token_key@)[i]
                                == k;
                        if i < before.len() {
                            assert(before[i] == k);
                        }
                    }
                    if before.contains(k) {
                        let i = choose|i: int| 0 <= i < before.len() && before[i] == k;
                        assert(before.push(token_key@)[i] == k);
                    }
                    if k == token_key@ {
                        assert(before.push(token_key@)[before.len() as int] == k);
                    }
                }
            }
        } else {
            assert(old(self)@.insert(token_key@) =~= old(self)@);
        }
    }

    /// How many keys are revoked.
    pub fn count(&self) -> (n: usize)
        ensures
            n == self@.len(),
    {
        proof {
            use_type_invariant(self);
            self.texts().unique_seq_to_set();
        }
        self.keys.len()
    }
}

} // verus!
