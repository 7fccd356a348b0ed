use vstd::prelude::*;
use crate::genetics::{crossed, crossover, duel, duel_outcome};
use crate::registry::Module;
use crate::types::{AccountId, Balance, Chocobo, Error, Event, H256, Payment};

verus! {

/// A newly created creature: its genome is its identity, and it has no
/// price, generation or race history.
pub open spec fn fresh_chocobo(id: H256) -> Chocobo {
    Chocobo { id, dna: id, price: 0, gen: 0, wins: 0, races: 0 }
}

/// The generation of a child of `sire` and `mare`.
pub open spec fn child_gen(sire: Chocobo, mare: Chocobo) -> int {
    (if sire.gen >= mare.gen { sire.gen } else { mare.gen }) + 1
}

/// Whether the first contender wins a race; ties go to it.
pub open spec fn first_wins(c1: Chocobo, c2: Chocobo) -> bool {
    duel(c1.dna@, c2.dna@) >= 0
}

/// Whether a race between `c1` and `c2` would overflow a counter.
pub open spec fn race_overflows(c1: Chocobo, c2: Chocobo) -> bool {
    ||| c1.races == u64::MAX
    ||| c2.races == u64::MAX
    ||| first_wins(c1, c2) && c1.wins == u64::MAX
    ||| !first_wins(c1, c2) && c2.wins == u64::MAX
}

/// The first contender after a race.
pub open spec fn raced_first(c1: Chocobo, c2: Chocobo) -> Chocobo {
    Chocobo {
        races: (c1.races + 1) as u64,
        wins: if first_wins(c1, c2) { (c1.wins + 1) as u64 } else { c1.wins },
        ..c1
    }
}

/// The second contender after a race.
pub open spec fn raced_second(c1: Chocobo, c2: Chocobo) -> Chocobo {
    Chocobo {
        races: (c2.races + 1) as u64,
        wins: if first_wins(c1, c2) { c2.wins } else { (c2.wins + 1) as u64 },
        ..c2
    }
}

/// The terms on which `buyer` may buy `id` for at most `max_price`: the
/// payment owed to the current owner, or why the purchase is refused.
pub open spec fn purchase_terms(m: Module, buyer: AccountId, id: H256, max_price: Balance) -> Result<
    Payment,
    Error,
> {
    if !m.contains(id) {
        Err(Error::NotFound)
    } else {
        let owner = m.owner_seq()[m.pos(id)];
        let price = m.chocos()[m.pos(id)].price;
        if owner == buyer {
            Err(Error::AlreadyOwner)
        } else if price == 0 {
            Err(Error::NotForSale)
        } else if price > max_price {
            Err(Error::PriceTooHigh)
        } else if m.owned_ids(buyer).len() == u64::MAX {
            Err(Error::CountOverflow)
        } else {
            Ok(Payment { from: buyer, to: owner, amount: price })
        }
    }
}

impl Module {
    /// Creates a creature under the identity `random_hash`, derived by the
    /// host from the seed, `sender` and the nonce (see `identity_input`),
    /// and gives it to `sender`.
    pub fn create_chocobo(&mut self, sender: AccountId, random_hash: H256) -> (r: Result<Event, Error>)
        requires
            old(self).wf(),
        ensures
            final(self).wf(),
            old(self).contains(random_hash) ==> r == Err::<Event, Error>(Error::DuplicateIdentity),
            !old(self).contains(random_hash) && (old(self).owned_ids(sender).len() == u64::MAX
                || old(self).count() == u64::MAX || old(self).current_nonce() == u64::MAX)
                ==> r == Err::<Event, Error>(Error::CountOverflow),
            !old(self).contains(random_hash) && old(self).owned_ids(sender).len() < u64::MAX
                && old(self).count() < u64::MAX && old(self).current_nonce() < u64::MAX
                ==> r == Ok::<Event, Error>(Event::Created(sender, random_hash)),
            r is Err ==> *final(self) == *old(self),
            r is Ok ==> Module::minted(*old(self), *final(self), sender, random_hash, fresh_chocobo(random_hash)),
            r is Ok ==> final(self).current_nonce() == old(self).current_nonce() + 1,
    {
        proof {
            self.lemma_counts_bounded();
        }
        if self.nonce() == u64::MAX {
            if self.position(&random_hash).is_some() {
                return Err(Error::DuplicateIdentity);
            }
            return Err(Error::CountOverflow);
        }
        let c = Chocobo { id: random_hash, dna: random_hash, price: 0, gen: 0, wins: 0, races: 0 };
        match self.mint(sender, random_hash, c) {
            Ok(_) => {},
            Err(e) => return Err(e),
        }
        self.advance_nonce();
        Ok(Event::Created(sender, random_hash))
    }

    /// Sets the price of a creature that `sender` owns; `0` withdraws it
    /// from sale.
    pub fn set_price(&mut self, sender: AccountId, choco_id: H256, new_price: Balance) -> (r: Result<Event, Error>)
        requires
            old(self).wf(),
        ensures
            final(self).wf(),
            !old(self).contains(choco_id) ==> r == Err::<Event, Error>(Error::NotFound),
            old(self).contains(choco_id) && old(self).owner_of_spec(choco_id) != Some(sender)
                ==> r == Err::<Event, Error>(Error::Unauthorized),
            old(self).owner_of_spec(choco_id) == Some(sender)
                ==> r == Ok::<Event, Error>(Event::PriceSet(sender, choco_id, new_price)),
            r is Err ==> *final(self) == *old(self),
            r is Ok ==> Module::same_ownership(*old(self), *final(self)),
            r is Ok ==> final(self).chocos() == old(self).chocos().update(
                old(self).pos(choco_id),
                Chocobo { price: new_price, ..old(self).chocos()[old(self).pos(choco_id)] },
            ),
            final(self).current_nonce() == old(self).current_nonce(),
    {
        let pos = match self.position(&choco_id) {
            Some(p) => p,
            None => return Err(Error::NotFound),
        };
        if self.owner_at(pos) != sender {
            return Err(Error::Unauthorized);
        }
        let c = self.chocobo_at(pos);
        self.set_chocobo(pos, Chocobo { price: new_price, ..c });
        Ok(Event::PriceSet(sender, choco_id, new_price))
    }

    /// Gives a creature that `sender` owns to `to`; an identity that `sender`
    /// does not own, registered or not, is refused as unauthorized.
    pub fn transfer(&mut self, sender: AccountId, to: AccountId, choco_id: H256) -> (r: Result<Event, Error>)
        requires
            old(self).wf(),
        ensures
            final(self).wf(),
            old(self).owner_of_spec(choco_id) != Some(sender) ==> r == Err::<Event, Error>(Error::Unauthorized),
            old(self).owner_of_spec(choco_id) == Some(sender) && sender != to
                && old(self).owned_ids(to).len() == u64::MAX ==> r == Err::<Event, Error>(Error::CountOverflow),
            old(self).owner_of_spec(choco_id) == Some(sender) && (sender == to
                || old(self).owned_ids(to).len() < u64::MAX)
                ==> r == Ok::<Event, Error>(Event::Transferred(sender, to, choco_id)),
            r is Err || sender == to ==> *final(self) == *old(self),
            r is Ok && sender != to ==> Module::reassigned(*old(self), *final(self), sender, to, choco_id),
            final(self).chocos() == old(self).chocos(),
            final(self).current_nonce() == old(self).current_nonce(),
    {
        self.transfer_from(sender, to, choco_id)
    }

    /// The payment that buying `choco_id` for at most `max_price` takes:
    /// the host's ledger moves it before `buy_chocobo` settles the purchase.
    pub fn buy_quote(&self, buyer: AccountId, choco_id: &H256, max_price: Balance) -> (r: Result<Payment, Error>)
        requires
            self.wf(),
        ensures
            r == purchase_terms(*self, buyer, *choco_id, max_price),
    {
        let pos = match self.position(choco_id) {
            Some(p) => p,
            None => return Err(Error::NotFound),
        };
        let owner = self.owner_at(pos);
        let price = self.chocobo_at(pos).price;
        if owner == buyer {
            return Err(Error::AlreadyOwner);
        }
        if price == 0 {
            return Err(Error::NotForSale);
        }
        if price > max_price {
            return Err(Error::PriceTooHigh);
        }
        if self.count_by_account(buyer) == u64::MAX {
            return Err(Error::CountOverflow);
        }
        Ok(Payment { from: buyer, to: owner, amount: price })
    }

    /// Settles a purchase of `choco_id` by `buyer`; `paid` tells whether the
    /// ledger moved the payment of `buy_quote`. The creature changes hands
    /// and leaves the market only when the terms hold and it was paid.
    /// Reports the transfer and the purchase, in that order.
    pub fn buy_chocobo(&mut self, buyer: AccountId, choco_id: H256, max_price: Balance, paid: bool) -> (r: Result<
        (Event, Event),
        Error,
    >)
        requires
            old(self).wf(),
        ensures
            final(self).wf(),
            purchase_terms(*old(self), buyer, choco_id, max_price) is Err ==> r == Err::<(Event, Event), Error>(
                purchase_terms(*old(self), buyer, choco_id, max_price)->Err_0,
            ),
            purchase_terms(*old(self), buyer, choco_id, max_price) is Ok && !paid ==> r == Err::<(Event, Event), Error>(
                Error::InsufficientFunds,
            ),
            purchase_terms(*old(self), buyer, choco_id, max_price) is Ok && paid ==> ({
                let pay = purchase_terms(*old(self), buyer, choco_id, max_price)->Ok_0;
                let pos = old(self).pos(choco_id);
                &&& r == Ok::<(Event, Event), Error>(
                    (Event::Transferred(pay.to, buyer, choco_id), Event::Bought(buyer, pay.to, choco_id, pay.amount)),
                )
                &&& Module::reassigned(*old(self), *final(self), pay.to, buyer, choco_id)
                &&& final(self).chocos() == old(self).chocos().update(
                    pos,
                    Chocobo { price: 0, ..old(self).chocos()[pos] },
                )
            }),
            r is Err ==> *final(self) == *old(self),
            final(self).current_nonce() == old(self).current_nonce(),
    {
        proof {
            self.lemma_counts_bounded();
        }
        let pay = match self.buy_quote(buyer, &choco_id, max_price) {
            Ok(p) => p,
            Err(e) => return Err(e),
        };
        if !paid {
            return Err(Error::InsufficientFunds);
        }
        let ghost pre = *self;
        match self.transfer_from(pay.to, buyer, choco_id) {
            Ok(_) => {},
            Err(e) => return Err(e),
        }
        let pos = match self.position(&choco_id) {
            Some(p) => p,
            None => return Err(Error::NotFound),
        };
        let c = self.chocobo_at(pos);
        let ghost mid = *self;
        self.set_chocobo(pos, Chocobo { price: 0, ..c });
        assert(Module::reassigned(pre, *self, pay.to, buyer, choco_id)) by {
            assert forall|a: AccountId| #[trigger] self.owned_ids(a) == mid.owned_ids(a) by {}
        }
        Ok((Event::Transferred(pay.to, buyer, choco_id), Event::Bought(buyer, pay.to, choco_id, pay.amount)))
    }

    /// Breeds a child of `sire_id` and `mare_id` under the identity
    /// `random_hash`, whose bytes also drive the crossover, and gives it to
    /// `sender`. Anyone may breed any two creatures. Reports the child's
    /// creation and the breeding, in that order.
    pub fn breed_chocobo(&mut self, sender: AccountId, sire_id: H256, mare_id: H256, random_hash: H256) -> (r:
        Result<(Event, Event), Error>)
        requires
            old(self).wf(),
        ensures
            final(self).wf(),
            !old(self).contains(sire_id) || !old(self).contains(mare_id) ==> r == Err::<(Event, Event), Error>(
                Error::NotFound,
            ),
            old(self).contains(sire_id) && old(self).contains(mare_id) && old(self).contains(random_hash)
                ==> r == Err::<(Event, Event), Error>(Error::DuplicateIdentity),
            ({
                let sire = old(self).chocos()[old(self).pos(sire_id)];
                let mare = old(self).chocos()[old(self).pos(mare_id)];
                old(self).contains(sire_id) && old(self).contains(mare_id) && !old(self).contains(random_hash)
                    ==> if old(self).owned_ids(sender).len() == u64::MAX || old(self).count() == u64::MAX
                    || old(self).current_nonce() == u64::MAX || child_gen(sire, mare) > u64::MAX {
                    r == Err::<(Event, Event), Error>(Error::CountOverflow)
                } else {
                    r == Ok::<(Event, Event), Error>(
                        (Event::Created(sender, random_hash), Event::Bred(sender, sire_id, mare_id, random_hash)),
                    )
                }
            }),
            r is Err ==> *final(self) == *old(self),
            r is Ok ==> ({
                let sire = old(self).chocos()[old(self).pos(sire_id)];
                let mare = old(self).chocos()[old(self).pos(mare_id)];
                let child = final(self).chocos().last();
                &&& Module::minted(*old(self), *final(self), sender, random_hash, child)
                &&& child.id == random_hash
                &&& child.dna@ == crossed(sire.dna@, mare.dna@, random_hash@)
                &&& child.price == 0
                &&& child.gen == child_gen(sire, mare)
                &&& child.wins == 0
                &&& child.races == 0
                &&& final(self).current_nonce() == old(self).current_nonce() + 1
            }),
    {
        proof {
            self.lemma_counts_bounded();
        }
        let sp = match self.position(&sire_id) {
            Some(p) => p,
            None => return Err(Error::NotFound),
        };
        let mp = match self.position(&mare_id) {
            Some(p) => p,
            None => return Err(Error::NotFound),
        };
        let sire = self.chocobo_at(sp);
        let mare = self.chocobo_at(mp);
        if self.position(&random_hash).is_some() {
            return Err(Error::DuplicateIdentity);
        }
        let top: u64 = if sire.gen >= mare.gen { sire.gen } else { mare.gen };
        if top == u64::MAX || self.nonce() == u64::MAX {
            return Err(Error::CountOverflow);
        }
        let child = Chocobo {
            id: random_hash,
            dna: crossover(&sire.dna, &mare.dna, &random_hash),
            price: 0,
            gen: top + 1,
            wins: 0,
            races: 0,
        };
        match self.mint(sender, random_hash, child) {
            Ok(_) => {},
            Err(e) => return Err(e),
        }
        self.advance_nonce();
        Ok((Event::Created(sender, random_hash), Event::Bred(sender, sire_id, mare_id, random_hash)))
    }

    /// Races two creatures: both count a race, and the winner, the first
    /// where the duel of their genomes is not negative, counts a win.
    /// Anyone may race any two creatures. A creature raced against itself
    /// counts one race and no win.
    pub fn race(&mut self, sender: AccountId, choco1_id: H256, choco2_id: H256) -> (r: Result<Event, Error>)
        requires
            old(self).wf(),
        ensures
            final(self).wf(),
            !old(self).contains(choco1_id) || !old(self).contains(choco2_id) ==> r == Err::<Event, Error>(
                Error::NotFound,
            ),
            ({
                let c1 = old(self).chocos()[old(self).pos(choco1_id)];
                let c2 = old(self).chocos()[old(self).pos(choco2_id)];
                old(self).contains(choco1_id) && old(self).contains(choco2_id) ==> if race_overflows(c1, c2)
                    || old(self).current_nonce() == u64::MAX {
                    r == Err::<Event, Error>(Error::CountOverflow)
                } else {
                    r == Ok::<Event, Error>(
                        Event::Raced(
                            sender,
                            choco1_id,
                            choco2_id,
                            if first_wins(c1, c2) { choco1_id } else { choco2_id },
                        ),
                    )
                }
            }),
            r is Err ==> *final(self) == *old(self),
            r is Ok ==> ({
                let p1 = old(self).pos(choco1_id);
                let p2 = old(self).pos(choco2_id);
                let c1 = old(self).chocos()[p1];
                let c2 = old(self).chocos()[p2];
                &&& Module::same_ownership(*old(self), *final(self))
                &&& final(self).chocos() == old(self).chocos().update(p1, raced_first(c1, c2)).update(
                    p2,
                    raced_second(c1, c2),
                )
                &&& final(self).current_nonce() == old(self).current_nonce() + 1
            }),
    {
        let p1 = match self.position(&choco1_id) {
            Some(p) => p,
            None => return Err(Error::NotFound),
        };
        let p2 = match self.position(&choco2_id) {
            Some(p) => p,
            None => return Err(Error::NotFound),
        };
        let c1 = self.chocobo_at(p1);
        let c2 = self.chocobo_at(p2);
        let outcome = duel_outcome(c1.dna.as_slice(), c2.dna.as_slice());
        let first = outcome >= 0;
        if c1.races == u64::MAX || c2.races == u64::MAX {
            return Err(Error::CountOverflow);
        }
        if (first && c1.wins == u64::MAX) || (!first && c2.wins == u64::MAX) {
            return Err(Error::CountOverflow);
        }
        if self.nonce() == u64::MAX {
            return Err(Error::CountOverflow);
        }
        let n1 = Chocobo { races: c1.races + 1, wins: if first { c1.wins + 1 } else { c1.wins }, ..c1 };
        let n2 = Chocobo { races: c2.races + 1, wins: if first { c2.wins } else { c2.wins + 1 }, ..c2 };
        self.set_chocobo(p1, n1);
        self.set_chocobo(p2, n2);
        self.advance_nonce();
        Ok(Event::Raced(sender, choco1_id, choco2_id, if first { choco1_id } else { choco2_id }))
    }
}

} // verus!
