use vstd::prelude::*;
use std::collections::HashMap;
use crate::codec::{encode_seed_input, seed_input};
use crate::types::{AccountId, Chocobo, Error, Event, H256};

verus! {

broadcast use vstd::std_specs::hash::group_hash_axioms;

/// `s` with the element at `k` replaced by the last one, and the last slot
/// dropped: removal in constant time, at the cost of the order.
pub open spec fn swap_remove<T>(s: Seq<T>, k: int) -> Seq<T> {
    if k == s.len() - 1 {
        s.drop_last()
    } else {
        s.drop_last().update(k, s.last())
    }
}

/// The registry: every creature, its owner, the global enumeration and the
/// per-owner enumerations, and the nonce mixed into fresh identities.
pub struct Module {
    /// Global enumeration: position to identity.
    all: Vec<H256>,
    /// The creature at each global position.
    chocobos: Vec<Chocobo>,
    /// The owner of the creature at each global position.
    owners: Vec<AccountId>,
    /// The slot of each global position in its owner's enumeration.
    owned_index: Vec<u64>,
    /// Per-owner enumeration: owner to the global positions it holds.
    owned: HashMap<AccountId, Vec<u64>>,
    nonce: u64,
}

impl Module {
    /// Identities in the order they were minted.
    pub closed spec fn ids(self) -> Seq<H256> {
        self.all@
    }

    /// Creatures in global order, parallel to `ids`.
    pub closed spec fn chocos(self) -> Seq<Chocobo> {
        self.chocobos@
    }

    /// Owners in global order, parallel to `ids`.
    pub closed spec fn owner_seq(self) -> Seq<AccountId> {
        self.owners@
    }

    pub closed spec fn current_nonce(self) -> u64 {
        self.nonce
    }

    closed spec fn slots(self, a: AccountId) -> Seq<u64> {
        if self.owned@.contains_key(a) {
            self.owned@[a]@
        } else {
            Seq::empty()
        }
    }

    /// The per-owner enumeration of `a`, as identities.
    pub closed spec fn owned_ids(self, a: AccountId) -> Seq<H256> {
        self.slots(a).map_values(|p: u64| self.all@[p as int])
    }

    /// The registry's internal consistency: parallel arrays agree in length,
    /// identities are unique, and the per-owner enumerations and their
    /// reverse index list every creature exactly once, under its owner.
    pub closed spec fn wf(self) -> bool {
        let n = self.all@.len();
        &&& self.chocobos@.len() == n
        &&& self.owners@.len() == n
        &&& self.owned_index@.len() == n
        &&& n <= u64::MAX
        &&& forall|i: int, j: int|
            0 <= i < n && 0 <= j < n && i != j ==> #[trigger] self.all@[i] != #[trigger] self.all@[j]
        &&& forall|i: int|
            #![trigger self.owners@[i]]
            0 <= i < n ==> {
                &&& (self.owned_index@[i] as int) < self.slots(self.owners@[i]).len()
                &&& self.slots(self.owners@[i])[self.owned_index@[i] as int] == i
            }
        &&& forall|a: AccountId, k: int|
            #![trigger self.slots(a)[k]]
            0 <= k < self.slots(a).len() ==> {
                &&& self.slots(a)[k] < n
                &&& self.owners@[self.slots(a)[k] as int] == a
                &&& self.owned_index@[self.slots(a)[k] as int] == k
            }
        &&& forall|a: AccountId| #[trigger] self.slots(a).len() <= u64::MAX
    }

    pub open spec fn count(self) -> nat {
        self.ids().len()
    }

    pub open spec fn contains(self, id: H256) -> bool {
        exists|i: int| 0 <= i < self.ids().len() && self.ids()[i] == id
    }

    /// The global position of `id`, where it is present.
    pub open spec fn pos(self, id: H256) -> int {
        choose|i: int| 0 <= i < self.ids().len() && self.ids()[i] == id
    }

    pub open spec fn chocobo_of(self, id: H256) -> Option<Chocobo> {
        if self.contains(id) {
            Some(self.chocos()[self.pos(id)])
        } else {
            None
        }
    }

    pub open spec fn owner_of_spec(self, id: H256) -> Option<AccountId> {
        if self.contains(id) {
            Some(self.owner_seq()[self.pos(id)])
        } else {
            None
        }
    }

    /// What a successful mint of `c` under `id` to `to` makes of `pre`.
    pub open spec fn minted(pre: Module, post: Module, to: AccountId, id: H256, c: Chocobo) -> bool {
        &&& post.ids() == pre.ids().push(id)
        &&& post.chocos() == pre.chocos().push(c)
        &&& post.owner_seq() == pre.owner_seq().push(to)
        &&& post.owned_ids(to) == pre.owned_ids(to).push(id)
        &&& forall|a: AccountId| a != to ==> #[trigger] post.owned_ids(a) == pre.owned_ids(a)
    }

    /// What moving `id` from `from` to another owner `to` makes of the
    /// ownership records of `pre`; the creatures themselves are not touched
    /// by it.
    pub open spec fn reassigned(pre: Module, post: Module, from: AccountId, to: AccountId, id: H256) -> bool {
        &&& post.ids() == pre.ids()
        &&& post.owner_seq() == pre.owner_seq().update(pre.pos(id), to)
        &&& exists|k: int|
            0 <= k < pre.owned_ids(from).len() && #[trigger] pre.owned_ids(from)[k] == id
                && post.owned_ids(from) == swap_remove(pre.owned_ids(from), k)
        &&& post.owned_ids(from).to_set() == pre.owned_ids(from).to_set().remove(id)
        &&& post.owned_ids(to) == pre.owned_ids(to).push(id)
        &&& forall|a: AccountId|
            a != from && a != to ==> #[trigger] post.owned_ids(a) == pre.owned_ids(a)
    }

    /// `post` holds the same ownership records and identities as `pre`.
    pub open spec fn same_ownership(pre: Module, post: Module) -> bool {
        &&& post.ids() == pre.ids()
        &&& post.owner_seq() == pre.owner_seq()
        &&& forall|a: AccountId| #[trigger] post.owned_ids(a) == pre.owned_ids(a)
    }

    /// An empty registry.
    pub fn new() -> (r: Module)
        ensures
            r.wf(),
            r.count() == 0,
            forall|a: AccountId| #[trigger] r.owned_ids(a).len() == 0,
            r.current_nonce() == 0,
    {
        let r = Module {
            all: Vec::new(),
            chocobos: Vec::new(),
            owners: Vec::new(),
            owned_index: Vec::new(),
            owned: HashMap::new(),
            nonce: 0,
        };
        assert forall|a: AccountId| #[trigger] r.slots(a).len() == 0 by {}
        r
    }

    /// A present identity sits at exactly one global position: `pos`.
    pub proof fn lemma_pos(self, id: H256)
        requires
            self.wf(),
            self.contains(id),
        ensures
            0 <= self.pos(id) < self.count(),
            self.ids()[self.pos(id)] == id,
            forall|i: int| 0 <= i < self.count() && #[trigger] self.ids()[i] == id ==> i == self.pos(id),
    {
    }


    /// The parallel sequences of a well-formed registry agree in length, and
    /// its counts fit in a `u64`.
    pub proof fn lemma_counts_bounded(self)
        requires
            self.wf(),
        ensures
            self.count() <= u64::MAX,
            self.chocos().len() == self.count(),
            self.owner_seq().len() == self.count(),
            forall|a: AccountId| #[trigger] self.owned_ids(a).len() <= u64::MAX,
    {
    }


    /// An identity is in the enumeration of `a` exactly when `a` owns it.
    pub proof fn lemma_owned_iff_owner(self, a: AccountId, id: H256)
        requires
            self.wf(),
        ensures
            self.owned_ids(a).contains(id) <==> self.owner_of_spec(id) == Some(a),
    {
        if self.owned_ids(a).contains(id) {
            let k = choose|k: int| 0 <= k < self.owned_ids(a).len() && self.owned_ids(a)[k] == id;
            let p = self.slots(a)[k] as int;
            assert(p < self.all@.len());
            assert(self.ids()[p] == id);
            self.lemma_pos(id);
        }
        if self.owner_of_spec(id) == Some(a) {
            self.lemma_slot(id);
            let k = self.owned_index@[self.pos(id)] as int;
            assert(self.owned_ids(a)[k] == id);
        }
    }

    /// Global position of `id`, by a scan of the global enumeration.
    pub(crate) fn position(&self, id: &H256) -> (r: Option<usize>)
        requires
            self.wf(),
        ensures
            match r {
                Some(i) => self.contains(*id) && i == self.pos(*id),
                None => !self.contains(*id),
            },
    {
        let mut i: usize = 0;
        while i < self.all.len()
            invariant
                self.wf(),
                i <= self.all@.len(),
                forall|j: int| 0 <= j < i ==> self.all@[j] != *id,
            decreases self.all@.len() - i,
        {
            if same_h256(&self.all[i], id) {
                proof {
                    assert(self.ids()[i as int] == *id);
                    self.lemma_pos(*id);
                }
                return Some(i);
            }
            i = i + 1;
        }
        None
    }

    pub(crate) fn slot_count(&self, a: AccountId) -> (r: u64)
        requires
            self.wf(),
        ensures
            r == self.owned_ids(a).len(),
    {
        match self.owned.get(&a) {
            Some(v) => {
                assert(self.slots(a).len() <= u64::MAX);
                v.len() as u64
            },
            None => 0,
        }
    }


    /// Adds `new_choco` under the fresh identity `choco_id`, owned by `to`:
    /// appended to the global enumeration and to `to`'s enumeration. Either
    /// everything is written or, on an error, nothing. Reports `Created`.
    pub fn mint(&mut self, to: AccountId, choco_id: H256, new_choco: Chocobo) -> (r: Result<Event, Error>)
        requires
            old(self).wf(),
        ensures
            final(self).wf(),
            old(self).contains(choco_id) ==> r == Err::<Event, Error>(Error::DuplicateIdentity),
            !old(self).contains(choco_id) && (old(self).owned_ids(to).len() == u64::MAX
                || old(self).count() == u64::MAX) ==> r == Err::<Event, Error>(Error::CountOverflow),
            !old(self).contains(choco_id) && old(self).owned_ids(to).len() < u64::MAX
                && old(self).count() < u64::MAX ==> r == Ok::<Event, Error>(Event::Created(to, choco_id)),
            r is Err ==> *final(self) == *old(self),
            r is Ok ==> Module::minted(*old(self), *final(self), to, choco_id, new_choco),
            final(self).current_nonce() == old(self).current_nonce(),
    {
        if self.position(&choco_id).is_some() {
            return Err(Error::DuplicateIdentity);
        }
        let owned_count = self.slot_count(to);
        if owned_count == u64::MAX {
            return Err(Error::CountOverflow);
        }
        let all_count: usize = self.all.len();
        if all_count as u64 == u64::MAX {
            return Err(Error::CountOverflow);
        }
        let ghost pre = *self;
        self.all.push(choco_id);
        self.chocobos.push(new_choco);
        self.owners.push(to);
        self.owned_index.push(owned_count);
        let mut v = match self.owned.remove(&to) {
            Some(v) => v,
            None => Vec::new(),
        };
        v.push(all_count as u64);
        self.owned.insert(to, v);
        proof {
            let n = all_count as int;
            assert forall|a: AccountId|
                #[trigger] self.slots(a) == (if a == to {
                    pre.slots(to).push(all_count as u64)
                } else {
                    pre.slots(a)
                }) by {}
            assert forall|i: int, j: int|
                0 <= i < n + 1 && 0 <= j < n + 1 && i != j implies #[trigger] self.all@[i]
                != #[trigger] self.all@[j] by {
                if i == n {
                    assert(pre.ids()[j] == self.all@[j]);
                } else if j == n {
                    assert(pre.ids()[i] == self.all@[i]);
                }
            }
            assert forall|i: int|
                #![trigger self.owners@[i]]
                0 <= i < n + 1 implies {
                    &&& (self.owned_index@[i] as int) < self.slots(self.owners@[i]).len()
                    &&& self.slots(self.owners@[i])[self.owned_index@[i] as int] == i
                } by {
                if i < n {
                    assert(pre.owners@[i] == self.owners@[i]);
                }
            }
            assert forall|a: AccountId, k: int|
                #![trigger self.slots(a)[k]]
                0 <= k < self.slots(a).len() implies {
                    &&& self.slots(a)[k] < n + 1
                    &&& self.owners@[self.slots(a)[k] as int] == a
                    &&& self.owned_index@[self.slots(a)[k] as int] == k
                } by {
                if a != to || k < pre.slots(to).len() {
                    assert(pre.slots(a)[k] == self.slots(a)[k]);
                }
            }
            assert forall|a: AccountId| #[trigger] self.slots(a).len() <= u64::MAX by {
                assert(pre.slots(a).len() <= u64::MAX);
            }
            assert(self.wf());
            assert forall|a: AccountId| a != to implies #[trigger] self.owned_ids(a) == pre.owned_ids(a) by {
                assert forall|k: int| 0 <= k < pre.slots(a).len() implies
                    self.all@[#[trigger] pre.slots(a)[k] as int] == pre.all@[pre.slots(a)[k] as int] by {}
                assert(self.owned_ids(a) =~= pre.owned_ids(a));
            }
            assert forall|k: int| 0 <= k < pre.slots(to).len() implies
                self.all@[#[trigger] pre.slots(to)[k] as int] == pre.all@[pre.slots(to)[k] as int] by {}
            assert(self.owned_ids(to) =~= pre.owned_ids(to).push(choco_id));
        }
        Ok(Event::Created(to, choco_id))
    }


    /// Each owner's enumeration lists distinct identities.
    pub proof fn lemma_owned_distinct(self, a: AccountId)
        requires
            self.wf(),
        ensures
            self.owned_ids(a).no_duplicates(),
    {
        assert forall|i: int, j: int|
            0 <= i < self.owned_ids(a).len() && 0 <= j < self.owned_ids(a).len() && i != j implies
            self.owned_ids(a)[i] != self.owned_ids(a)[j] by {
            assert(self.slots(a)[i] < self.all@.len());
            assert(self.slots(a)[j] < self.all@.len());
        }
    }

    /// The identity of a present creature sits in its owner's enumeration,
    /// at the slot that the reverse index records.
    proof fn lemma_slot(self, id: H256)
        requires
            self.wf(),
            self.contains(id),
        ensures
            0 <= self.owned_index@[self.pos(id)] < self.owned_ids(self.owners@[self.pos(id)]).len(),
            self.slots(self.owners@[self.pos(id)])[self.owned_index@[self.pos(id)] as int] == self.pos(id),
            self.owned_ids(self.owners@[self.pos(id)])[self.owned_index@[self.pos(id)] as int] == id,
    {
        self.lemma_pos(id);
    }

    /// Moves `choco_id` from `from`'s enumeration to the end of `to`'s, by a
    /// swap-delete on `from`'s side, and records `to` as its owner. Moving a
    /// creature to the owner it already has changes nothing. Only the current
    /// owner can be `from`: any other account, or an identity that nobody
    /// owns, is refused as unauthorized. Reports `Transferred`.
    pub fn transfer_from(&mut self, from: AccountId, to: AccountId, choco_id: H256) -> (r: Result<Event, Error>)
        requires
            old(self).wf(),
        ensures
            final(self).wf(),
            old(self).owner_of_spec(choco_id) != Some(from) ==> r == Err::<Event, Error>(Error::Unauthorized),
            old(self).owner_of_spec(choco_id) == Some(from) && from != to
                && old(self).owned_ids(to).len() == u64::MAX ==> r == Err::<Event, Error>(Error::CountOverflow),
            old(self).owner_of_spec(choco_id) == Some(from) && (from == to
                || old(self).owned_ids(to).len() < u64::MAX)
                ==> r == Ok::<Event, Error>(Event::Transferred(from, to, choco_id)),
            r is Err || from == to ==> *final(self) == *old(self),
            r is Ok && from != to ==> Module::reassigned(*old(self), *final(self), from, to, choco_id),
            final(self).chocos() == old(self).chocos(),
            final(self).current_nonce() == old(self).current_nonce(),
    {
        let pos = match self.position(&choco_id) {
            Some(p) => p,
            None => return Err(Error::Unauthorized),
        };
        if self.owners[pos] != from {
            return Err(Error::Unauthorized);
        }
        if from == to {
            return Ok(Event::Transferred(from, to, choco_id));
        }
        let count_from = self.slot_count(from);
        let count_to = self.slot_count(to);
        if count_from == 0 {
            return Err(Error::CountUnderflow);
        }
        let last = count_from - 1;
        if count_to == u64::MAX {
            return Err(Error::CountOverflow);
        }
        let ghost pre = *self;
        proof {
            pre.lemma_slot(choco_id);
        }
        let k = self.owned_index[pos];
        let mut vf = match self.owned.remove(&from) {
            Some(v) => v,
            None => Vec::new(),
        };
        assert(vf@ == pre.slots(from));
        let ghost moved = vf@[last as int];
        let vlen: usize = vf.len();
        assert(k < vlen && last < vlen);
        if k != last {
            let m = vf[last as usize];
            vf.set(k as usize, m);
            let n: usize = self.owned_index.len();
            assert(m < n);
            self.owned_index.set(m as usize, k);
        }
        assert(self.owned_index@ == (if k != last {
            pre.owned_index@.update(moved as int, k)
        } else {
            pre.owned_index@
        }));
        assert(vf@ == (if k != last { pre.slots(from).update(k as int, moved) } else { pre.slots(from) }));
        vf.pop();
        assert(vf@ =~= swap_remove(pre.slots(from), k as int));
        self.owned.insert(from, vf);
        let mut vt = match self.owned.remove(&to) {
            Some(v) => v,
            None => Vec::new(),
        };
        assert(vt@ == pre.slots(to));
        self.owned_index.set(pos, count_to);
        vt.push(pos as u64);
        self.owned.insert(to, vt);
        self.owners.set(pos, to);
        assert(self.owned_index@ == (if k != last {
            pre.owned_index@.update(moved as int, k)
        } else {
            pre.owned_index@
        }).update(pos as int, count_to));
        proof {
            let n = pre.all@.len() as int;
            let sf = pre.slots(from);
            let st = pre.slots(to);
            let sf2 = swap_remove(sf, k as int);
            let p = pos as int;
            assert(sf[k as int] == p);
            assert(k != last ==> pre.owned_index@[moved as int] == last && moved != p && moved < n);
            assert forall|a: AccountId|
                #[trigger] self.slots(a) == (if a == from {
                    sf2
                } else if a == to {
                    st.push(pos as u64)
                } else {
                    pre.slots(a)
                }) by {
                if a == from {
                    assert(self.slots(from) =~= sf2);
                }
            }
            assert forall|i: int|
                #![trigger self.owners@[i]]
                0 <= i < n implies {
                    &&& (self.owned_index@[i] as int) < self.slots(self.owners@[i]).len()
                    &&& self.slots(self.owners@[i])[self.owned_index@[i] as int] == i
                } by {
                if i != p && !(k != last && i == moved) {
                    assert(pre.owners@[i] == self.owners@[i]);
                    assert(pre.owned_index@[i] == self.owned_index@[i]);
                    let j = pre.owned_index@[i] as int;
                    if pre.owners@[i] == from {
                        assert(j != k);
                        assert(j != last);
                    }
                }
            }
            assert forall|a: AccountId, j: int|
                #![trigger self.slots(a)[j]]
                0 <= j < self.slots(a).len() implies {
                    &&& self.slots(a)[j] < n
                    &&& self.owners@[self.slots(a)[j] as int] == a
                    &&& self.owned_index@[self.slots(a)[j] as int] == j
                } by {
                if a == from {
                    if j == k && k != last {
                        assert(sf[last as int] == moved);
                    } else {
                        assert(self.slots(a)[j] == sf[j]);
                        assert(sf[j] != p);
                        assert(j != last);
                    }
                } else if a == to {
                    if j < st.len() {
                        assert(self.slots(a)[j] == st[j]);
                        assert(pre.owners@[st[j] as int] == to);
                    }
                } else {
                    assert(self.slots(a)[j] == pre.slots(a)[j]);
                    assert(pre.owners@[pre.slots(a)[j] as int] == a);
                }
            }
            assert forall|a: AccountId| #[trigger] self.slots(a).len() <= u64::MAX by {
                assert(pre.slots(a).len() <= u64::MAX);
            }
            assert(self.wf());
            assert(self.owners@ == pre.owner_seq().update(pre.pos(choco_id), to));
            assert(self.owned_ids(from) =~= swap_remove(pre.owned_ids(from), k as int));
            assert(pre.owned_ids(from)[k as int] == choco_id);
            assert(self.owned_ids(to) =~= pre.owned_ids(to).push(choco_id));
            assert forall|a: AccountId|
                a != from && a != to implies #[trigger] self.owned_ids(a) == pre.owned_ids(a) by {
                assert(self.owned_ids(a) =~= pre.owned_ids(a));
            }
            pre.lemma_owned_distinct(from);
            lemma_swap_remove_set(pre.owned_ids(from), k as int);
        }
        Ok(Event::Transferred(from, to, choco_id))
    }


    /// Replaces the creature at global position `pos`, keeping its identity.
    pub(crate) fn set_chocobo(&mut self, pos: usize, c: Chocobo)
        requires
            old(self).wf(),
            pos < old(self).count(),
        ensures
            final(self).wf(),
            Module::same_ownership(*old(self), *final(self)),
            final(self).chocos() == old(self).chocos().update(pos as int, c),
            final(self).current_nonce() == old(self).current_nonce(),
    {
        self.chocobos.set(pos, c);
        assert forall|a: AccountId| #[trigger] self.slots(a) == old(self).slots(a) by {}
        assert forall|i: int| #![trigger self.owners@[i]] 0 <= i < self.all@.len() implies
            self.owners@[i] == old(self).owners@[i] by {}
        assert forall|a: AccountId| #[trigger] self.owned_ids(a) == old(self).owned_ids(a) by {
            assert(self.owned_ids(a) =~= old(self).owned_ids(a));
        }
    }

    /// Moves the nonce on by one.
    pub(crate) fn advance_nonce(&mut self)
        requires
            old(self).wf(),
            old(self).current_nonce() < u64::MAX,
        ensures
            final(self).wf(),
            Module::same_ownership(*old(self), *final(self)),
            final(self).chocos() == old(self).chocos(),
            final(self).current_nonce() == old(self).current_nonce() + 1,
    {
        self.nonce = self.nonce + 1;
        assert forall|a: AccountId| #[trigger] self.slots(a) == old(self).slots(a) by {}
        assert forall|i: int| #![trigger self.owners@[i]] 0 <= i < self.all@.len() implies
            self.owners@[i] == old(self).owners@[i] by {}
        assert forall|a: AccountId| #[trigger] self.owned_ids(a) == old(self).owned_ids(a) by {
            assert(self.owned_ids(a) =~= old(self).owned_ids(a));
        }
    }

    /// The bytes to hash for the next fresh identity that `caller` derives
    /// from `seed`: the seed, the caller and the current nonce.
    pub fn identity_input(&self, seed: &H256, caller: AccountId) -> (r: Vec<u8>)
        ensures
            r@ == seed_input(seed@, caller, self.current_nonce()),
    {
        encode_seed_input(seed, caller, self.nonce)
    }

    /// The global count is the number of distinct identities ever minted:
    /// no identity is listed twice.
    pub proof fn lemma_count_is_distinct_ids(self)
        requires
            self.wf(),
        ensures
            self.ids().no_duplicates(),
            self.count() == self.ids().to_set().len(),
    {
        self.ids().unique_seq_to_set();
    }


    pub(crate) fn chocobo_at(&self, pos: usize) -> (r: Chocobo)
        requires
            self.wf(),
            pos < self.count(),
        ensures
            r == self.chocos()[pos as int],
    {
        self.chocobos[pos]
    }

    pub(crate) fn owner_at(&self, pos: usize) -> (r: AccountId)
        requires
            self.wf(),
            pos < self.count(),
        ensures
            r == self.owner_seq()[pos as int],
    {
        self.owners[pos]
    }

    /// Number of creatures in the registry.
    pub fn get_all_count(&self) -> (r: u64)
        requires
            self.wf(),
        ensures
            r == self.count(),
    {
        self.all.len() as u64
    }

    /// Number of creatures that `owner` holds.
    pub fn count_by_account(&self, owner: AccountId) -> (r: u64)
        requires
            self.wf(),
        ensures
            r == self.owned_ids(owner).len(),
    {
        self.slot_count(owner)
    }

    /// The identity at global position `index`.
    pub fn choco_by_index(&self, index: u64) -> (r: Option<H256>)
        requires
            self.wf(),
        ensures
            r == (if index < self.count() { Some(self.ids()[index as int]) } else { None::<H256> }),
    {
        if (index as usize) < self.all.len() && index <= usize::MAX as u64 {
            Some(self.all[index as usize])
        } else {
            None
        }
    }

    /// The identity at slot `index` of `owner`'s enumeration.
    pub fn choco_of_owner_by_index(&self, owner: AccountId, index: u64) -> (r: Option<H256>)
        requires
            self.wf(),
        ensures
            r == (if index < self.owned_ids(owner).len() {
                Some(self.owned_ids(owner)[index as int])
            } else {
                None::<H256>
            }),
    {
        match self.owned.get(&owner) {
            Some(v) => {
                assert(v@ == self.slots(owner));
                assert(self.slots(owner).len() <= u64::MAX);
                if index < v.len() as u64 {
                    let p = v[index as usize];
                    assert(self.slots(owner)[index as int] < self.all@.len());
                    assert(self.owned_ids(owner)[index as int] == self.all@[p as int]);
                    let n: usize = self.all.len();
                    assert(p < n);
                    Some(self.all[p as usize])
                } else {
                    None
                }
            },
            None => {
                assert(self.owned_ids(owner).len() == 0);
                None
            },
        }
    }

    /// The creature minted under `id`.
    pub fn choco_by_id(&self, id: &H256) -> (r: Option<Chocobo>)
        requires
            self.wf(),
        ensures
            r == self.chocobo_of(*id),
    {
        match self.position(id) {
            Some(i) => Some(self.chocobos[i]),
            None => None,
        }
    }

    /// The current owner of `id`.
    pub fn owner_of(&self, id: &H256) -> (r: Option<AccountId>)
        requires
            self.wf(),
        ensures
            r == self.owner_of_spec(*id),
    {
        match self.position(id) {
            Some(i) => Some(self.owners[i]),
            None => None,
        }
    }

    /// The nonce that the next fresh identity will be derived with.
    pub fn nonce(&self) -> (r: u64)
        ensures
            r == self.current_nonce(),
    {
        self.nonce
    }
}


/// Swap-deleting the element at `k` of a sequence without duplicates leaves
/// the set of its elements less that one, whatever order remains.
pub proof fn lemma_swap_remove_set<T>(s: Seq<T>, k: int)
    requires
        0 <= k < s.len(),
        s.no_duplicates(),
    ensures
        swap_remove(s, k).len() == s.len() - 1,
        swap_remove(s, k).to_set() == s.to_set().remove(s[k]),
{
    let r = swap_remove(s, k);
    let last = s.len() - 1;
    assert forall|x: T| r.to_set().contains(x) <==> s.to_set().remove(s[k]).contains(x) by {
        if r.to_set().contains(x) {
            let j = choose|j: int| 0 <= j < r.len() && r[j] == x;
            if j == k {
                assert(r[j] == s[last]);
            } else {
                assert(r[j] == s[j]);
            }
        }
        if s.to_set().remove(s[k]).contains(x) {
            let j = choose|j: int| 0 <= j < s.len() && s[j] == x;
            if j == last {
                assert(r[k] == x);
            } else {
                assert(r[j] == x);
            }
        }
    }
    assert(r.to_set() =~= s.to_set().remove(s[k]));
}

/// Byte-wise equality of two 256-bit values.
pub fn same_h256(a: &H256, b: &H256) -> (r: bool)
    ensures
        r == (*a == *b),
{
    let mut i: usize = 0;
    while i < 32
        invariant
            i <= 32,
            forall|j: int| 0 <= j < i ==> a[j] == b[j],
        decreases 32 - i,
    {
        if a[i] != b[i] {
            return false;
        }
        i = i + 1;
    }
    assert(*a =~= *b);
    true
}

} // verus!
