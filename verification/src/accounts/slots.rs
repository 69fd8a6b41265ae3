//! The credentials of saved accounts, each in a slot under its account's ID.

use vstd::prelude::*;
use crate::accounts::model;
use crate::accounts::model::{AuthDotJson, AuthView};
use crate::text;

verus! {

/// One account's credentials.
#[derive(Debug, PartialEq, Eq)]
pub struct Slot {
    pub session_id: String,
    pub auth: AuthDotJson,
}

/// Credentials by account.
#[derive(Debug, PartialEq, Eq)]
pub struct CredentialSlots {
    pub slots: Vec<Slot>,
}

/// The credentials under an ID.
pub open spec fn slot_of(slots: Seq<Slot>, id: Seq<char>) -> Option<AuthView>
    decreases slots.len(),
{
    if slots.len() == 0 {
        None
    } else if slots.last().session_id@ == id {
        Some(slots.last().auth@)
    } else {
        slot_of(slots.drop_last(), id)
    }
}

impl View for CredentialSlots {
    type V = Map<Seq<char>, AuthView>;

    open spec fn view(&self) -> Map<Seq<char>, AuthView> {
        Map::new(
            |id: Seq<char>| slot_of(self.slots@, id) is Some,
            |id: Seq<char>| slot_of(self.slots@, id)->0,
        )
    }
}

/// The credentials under an ID, if there are any.
pub open spec fn lookup(slots: Map<Seq<char>, AuthView>, id: Seq<char>) -> Option<AuthView> {
    if slots.contains_key(id) {
        Some(slots[id])
    } else {
        None
    }
}

impl CredentialSlots {
    pub fn new() -> (res: CredentialSlots)
        ensures
            res@ == Map::<Seq<char>, AuthView>::empty(),
    {
        let slots = CredentialSlots { slots: Vec::new() };
        assert(slots@ =~= Map::<Seq<char>, AuthView>::empty());
        slots
    }

    /// A copy of the credentials under an ID.
    pub fn get(&self, id: &str) -> (res: Option<AuthDotJson>)
        ensures
            model::opt_auth(res) == lookup(self@, id@),
    {
        let mut i: usize = self.slots.len();
        assert(self.slots@.take(i as int) == self.slots@);
        while i > 0
            invariant
                i <= self.slots@.len(),
                slot_of(self.slots@, id@) == slot_of(self.slots@.take(i as int), id@),
            decreases i,
        {
            assert(self.slots@.take(i as int).drop_last() == self.slots@.take(i - 1));
            if text::same_text(self.slots[i - 1].session_id.as_str(), id) {
                return Some(self.slots[i - 1].auth.copy());
            }
            i = i - 1;
        }
        None
    }

    /// Puts credentials under an ID, in the place of earlier ones.
    pub fn put(&mut self, id: &str, auth: AuthDotJson)
        ensures
            final(self)@ == old(self)@.insert(id@, auth@),
    {
        let ghost before = self.slots@;
        self.slots.push(Slot { session_id: id.to_string(), auth });
        proof {
            let pushed = self.slots@;
            assert forall|other: Seq<char>| #[trigger] slot_of(pushed, other) == (if other == id@ {
                Some(auth@)
            } else {
                slot_of(before, other)
            }) by {
                assert(pushed.drop_last() == before);
            }
            assert(self@ =~= old(self)@.insert(id@, auth@));
        }
    }

    /// Removes the credentials under an ID.
    pub fn remove(&mut self, id: &str)
        ensures
            final(self)@ == old(self)@.remove(id@),
    {
        let ghost before = self.slots@;
        let mut i: usize = self.slots.len();
        assert(self.slots@.take(i as int) == self.slots@);
        assert(forall|other: Seq<char>|
            other != id@ ==> slot_of(self.slots@, other) == #[trigger] slot_of(before, other));
        while i > 0
            invariant
                i <= self.slots@.len(),
                forall|j: int| i <= j < self.slots@.len() ==> (#[trigger] self.slots@[j]).session_id@
                    != id@,
                forall|other: Seq<char>|
                    other != id@ ==> slot_of(self.slots@, other) == #[trigger] slot_of(
                        before,
                        other,
                    ),
            decreases i,
        {
            i = i - 1;
            if text::same_text(self.slots[i].session_id.as_str(), id) {
                let ghost held = self.slots@;
                self.slots.remove(i);
                proof {
                    assert forall|other: Seq<char>| other != id@ implies slot_of(
                        self.slots@,
                        other,
                    ) == #[trigger] slot_of(before, other) by {
                        lemma_removed(held, i as int, other);
                    }
                }
            }
        }
        proof {
            lemma_absent(self.slots@, id@);
            assert forall|other: Seq<char>| #[trigger] self@.contains_key(other) <==> (old(
                self,
            )@.contains_key(other) && other != id@) by {
                if other != id@ {
                    assert(slot_of(self.slots@, other) == slot_of(before, other));
                }
            }
            assert(self@ =~= old(self)@.remove(id@));
        }
    }
}

/// Without a slot of another ID, an ID's credentials are as before.
proof fn lemma_removed(slots: Seq<Slot>, at: int, id: Seq<char>)
    requires
        0 <= at < slots.len(),
        slots[at].session_id@ != id,
    ensures
        slot_of(slots.remove(at), id) == slot_of(slots, id),
    decreases slots.len(),
{
    if at == slots.len() - 1 {
        assert(slots.remove(at) == slots.drop_last());
    } else {
        assert(slots.remove(at).drop_last() == slots.drop_last().remove(at));
        assert(slots.remove(at).last() == slots.last());
        lemma_removed(slots.drop_last(), at, id);
    }
}

proof fn lemma_absent(slots: Seq<Slot>, id: Seq<char>)
    requires
        forall|j: int| 0 <= j < slots.len() ==> (#[trigger] slots[j]).session_id@ != id,
    ensures
        slot_of(slots, id) is None,
    decreases slots.len(),
{
    if slots.len() > 0 {
        assert(slots[slots.len() - 1].session_id@ != id);
        lemma_absent(slots.drop_last(), id);
    }
}

} // verus!
