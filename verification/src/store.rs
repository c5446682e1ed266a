use vstd::prelude::*;
use crate::types::{Claim, ClaimView, DataKey, DataKeyView, Profile, ProfileView};

verus! {

/// What the registry keeps under a key.
#[derive(Debug, PartialEq, Eq)]
pub enum Value {
    Profile(Profile),
    Claim(Claim),
    /// Claim ids, in the order in which the claims were issued.
    ClaimIds(Vec<u64>),
}

/// What a stored value stands for.
pub enum ValueView {
    Profile(ProfileView),
    Claim(ClaimView),
    ClaimIds(Seq<u64>),
}

impl View for Value {
    type V = ValueView;

    open spec fn view(&self) -> ValueView {
        match self {
            Value::Profile(p) => ValueView::Profile(p@),
            Value::Claim(c) => ValueView::Claim(c@),
            Value::ClaimIds(ids) => ValueView::ClaimIds(ids@),
        }
    }
}

/// Copies a list of claim ids.
pub fn copy_ids(src: &Vec<u64>) -> (dst: Vec<u64>)
    ensures
        dst@ == src@,
{
    let mut dst: Vec<u64> = Vec::new();
    let mut i: usize = 0;
    while i < src.len()
        invariant
            i <= src.len(),
            dst@ == src@.subrange(0, i as int),
        decreases src.len() - i,
    {
        dst.push(src[i]);
        i += 1;
        assert(dst@ =~= src@.subrange(0, i as int));
    }
    assert(src@.subrange(0, src.len() as int) =~= src@);
    dst
}

impl Clone for Value {
    fn clone(&self) -> (copy: Self)
        ensures
            copy@ == self@,
    {
        match self {
            Value::Profile(p) => Value::Profile(p.clone()),
            Value::Claim(c) => Value::Claim(c.clone()),
            Value::ClaimIds(ids) => Value::ClaimIds(copy_ids(ids)),
        }
    }
}

/// One entry of the store: a value under its key, and the last ledger
/// sequence number at which the entry is still alive.
#[derive(Debug, PartialEq, Eq)]
pub struct Entry {
    pub key: DataKey,
    pub value: Value,
    pub live_until: u64,
}

/// What the store holds under one key.
pub struct SlotView {
    pub value: ValueView,
    pub live_until: u64,
}

impl Entry {
    /// The value and the lifetime of the entry, without its key.
    pub open spec fn slot(&self) -> SlotView {
        SlotView { value: self.value@, live_until: self.live_until }
    }
}

/// A key-value store whose entries carry a lifetime. It holds at most one
/// entry under a key.
#[derive(Debug)]
pub struct Store {
    entries: Vec<Entry>,
}

impl View for Store {
    type V = Map<DataKeyView, SlotView>;

    closed spec fn view(&self) -> Map<DataKeyView, SlotView> {
        Map::new(
            |k: DataKeyView| exists|i: int| 0 <= i < self.entries@.len() && self.entries@[i].key@ == k,
            |k: DataKeyView| self.entries@[self.index_of(k)].slot(),
        )
    }
}

impl Store {
    #[verifier::type_invariant]
    spec fn unique_keys(self) -> bool {
        forall|i: int, j: int|
            0 <= i < j < self.entries@.len() ==> self.entries@[i].key@ != self.entries@[j].key@
    }

    /// An index at which `k` is kept, where there is one.
    spec fn index_of(&self, k: DataKeyView) -> int {
        choose|i: int| 0 <= i < self.entries@.len() && self.entries@[i].key@ == k
    }

    /// A store without entries.
    pub fn new() -> (store: Self)
        ensures
            store@ == Map::<DataKeyView, SlotView>::empty(),
    {
        let store = Store { entries: Vec::new() };
        assert(store@ =~= Map::<DataKeyView, SlotView>::empty());
        store
    }

    /// The index at which `key` is kept, if it is kept.
    fn position(&self, key: &DataKey) -> (found: Option<usize>)
        ensures
            match found {
                Some(i) => i < self.entries@.len() && self.entries@[i as int].key@ == key@,
                None => forall|i: int| 0 <= i < self.entries@.len() ==> self.entries@[i].key@ != key@,
            },
    {
        let mut i: usize = 0;
        while i < self.entries.len()
            invariant
                i <= self.entries@.len(),
                forall|j: int| 0 <= j < i ==> self.entries@[j].key@ != key@,
            decreases self.entries@.len() - i,
        {
            if self.entries[i].key.same(key) {
                return Some(i);
            }
            i += 1;
        }
        None
    }

    /// The entry kept under `key`, if there is one, whatever its lifetime.
    pub fn get(&self, key: &DataKey) -> (found: Option<&Entry>)
        ensures
            match found {
                Some(entry) => self@.dom().contains(key@) && entry.slot() == self@[key@]
                    && entry.key@ == key@,
                None => !self@.dom().contains(key@),
            },
    {
        proof {
            use_type_invariant(self);
        }
        match self.position(key) {
            Some(i) => {
                assert(self.entries@[self.index_of(key@)].key@ == key@);
                Some(&self.entries[i])
            },
            None => None,
        }
    }

    /// Keeps `value` under `key` with the given lifetime, in place of what
    /// was kept there before.
    pub fn set(&mut self, key: DataKey, value: Value, live_until: u64)
        ensures
            final(self)@ == old(self)@.insert(
                key@,
                SlotView { value: value@, live_until },
            ),
    {
        proof {
            use_type_invariant(&*self);
        }
        let ghost before = *self;
        let ghost k = key@;
        let ghost slot = SlotView { value: value@, live_until };
        let entry = Entry { key, value, live_until };
        let found = self.position(&entry.key);
        let mut taken = Store { entries: Vec::new() };
        core::mem::swap(self, &mut taken);
        let Store { entries } = taken;
        let mut entries = entries;
        match found {
            Some(i) => {
                entries[i] = entry;
                assert(entries@ == before.entries@.update(i as int, entry));
            },
            None => {
                entries.push(entry);
                assert(entries@ == before.entries@.push(entry));
            },
        }
        *self = Store { entries };
        let ghost p: int = match found {
            Some(i) => i as int,
            None => before.entries@.len() as int,
        };
        proof {
            assert(0 <= p < self.entries@.len() && self.entries@[p] == entry);
            assert forall|q: DataKeyView| #[trigger] self@.dom().contains(q) <==> before@.insert(k, slot).dom().contains(q) by {
                if self@.dom().contains(q) {
                    let i = choose|i: int| 0 <= i < self.entries@.len() && self.entries@[i].key@ == q;
                    if q != k {
                        assert(before.entries@[i].key@ == q);
                    }
                }
                if before@.dom().contains(q) && q != k {
                    let i = choose|i: int| 0 <= i < before.entries@.len() && before.entries@[i].key@ == q;
                    assert(self.entries@[i].key@ == q);
                }
                if q == k {
                    assert(self.entries@[p].key@ == q);
                }
            }
            assert forall|q: DataKeyView| #[trigger] self@.dom().contains(q) implies self@[q] == before@.insert(k, slot)[q] by {
                let i = self.index_of(q);
                assert(0 <= i < self.entries@.len() && self.entries@[i].key@ == q);
                if q == k {
                    assert(i == p);
                } else {
                    let j = before.index_of(q);
                    assert(before.entries@[i].key@ == q);
                    assert(0 <= j < before.entries@.len() && before.entries@[j].key@ == q);
                    assert(i == j);
                }
            }
            assert(self@ =~= before@.insert(k, slot));
        }
    }
}

} // verus!
