use vstd::prelude::*;
use crate::genetics::{crossed, duel};
use crate::handlers::{first_wins, purchase_terms, raced_first, raced_second, race_overflows};
use crate::types::Balance;
use crate::registry::Module;
use crate::types::{AccountId, Chocobo, H256};

verus! {

/// An identity, once minted, is present: minting it again is refused as a
/// duplicate, and the global count stays the number of distinct identities.
pub proof fn lemma_no_second_mint(pre: Module, post: Module, to: AccountId, id: H256, c: Chocobo)
    requires
        post.wf(),
        Module::minted(pre, post, to, id, c),
    ensures
        post.contains(id),
        post.count() == post.ids().to_set().len(),
{
    assert(post.ids()[pre.ids().len() as int] == id);
    post.lemma_count_is_distinct_ids();
}

/// After a mint of `c` under a fresh `id` to `to`: `id` is owned by `to`
/// and holds `c`, the global count and `to`'s count each grew by one.
pub proof fn lemma_mint_effect(pre: Module, post: Module, to: AccountId, id: H256, c: Chocobo)
    requires
        pre.wf(),
        post.wf(),
        !pre.contains(id),
        Module::minted(pre, post, to, id, c),
    ensures
        post.owner_of_spec(id) == Some(to),
        post.chocobo_of(id) == Some(c),
        post.count() == pre.count() + 1,
        post.owned_ids(to).len() == pre.owned_ids(to).len() + 1,
        post.owned_ids(to).last() == id,
{
    let n = pre.count() as int;
    pre.lemma_counts_bounded();
    post.lemma_counts_bounded();
    assert(post.ids()[n] == id);
    post.lemma_pos(id);
}

/// After moving `id` from `a` to another owner `b`: `b` owns it, `a`'s
/// count fell by one and `b`'s grew by one, the global count is unchanged,
/// and `a` holds the same set of identities as before less `id`, whatever
/// order its enumeration is left in.
pub proof fn lemma_reassign_effect(pre: Module, post: Module, a: AccountId, b: AccountId, id: H256)
    requires
        pre.wf(),
        post.wf(),
        a != b,
        pre.owner_of_spec(id) == Some(a),
        Module::reassigned(pre, post, a, b, id),
    ensures
        post.owner_of_spec(id) == Some(b),
        post.owned_ids(a).len() == pre.owned_ids(a).len() - 1,
        post.owned_ids(b).len() == pre.owned_ids(b).len() + 1,
        post.count() == pre.count(),
        post.owned_ids(a).to_set() == pre.owned_ids(a).to_set().remove(id),
        !post.owned_ids(a).contains(id),
        post.owned_ids(b).contains(id),
{
    pre.lemma_pos(id);
    pre.lemma_counts_bounded();
    post.lemma_counts_bounded();
    post.lemma_pos(id);
    let k = choose|k: int|
        0 <= k < pre.owned_ids(a).len() && #[trigger] pre.owned_ids(a)[k] == id && post.owned_ids(a)
            == crate::registry::swap_remove(pre.owned_ids(a), k);
    pre.lemma_owned_distinct(a);
    crate::registry::lemma_swap_remove_set(pre.owned_ids(a), k);
    if post.owned_ids(a).contains(id) {
        let j = choose|j: int| 0 <= j < post.owned_ids(a).len() && post.owned_ids(a)[j] == id;
        assert(post.owned_ids(a).to_set().contains(id));
    }
    assert(post.owned_ids(b)[pre.owned_ids(b).len() as int] == id);
}

/// Every byte of a bred genome is the sire's or the mare's byte at the same
/// position, never a third value.
pub proof fn lemma_crossed_from_parents(sire: Seq<u8>, mare: Seq<u8>, rand: Seq<u8>)
    requires
        mare.len() == sire.len(),
        rand.len() == sire.len(),
    ensures
        crossed(sire, mare, rand).len() == sire.len(),
        forall|i: int|
            0 <= i < sire.len() ==> #[trigger] crossed(sire, mare, rand)[i] == sire[i]
                || crossed(sire, mare, rand)[i] == mare[i],
{
}

/// A settled purchase: the buyer owns the creature, which is no longer for
/// sale, and the payment that the ledger moved was the creature's price
/// before the call, from the buyer to the former owner.
pub proof fn lemma_purchase_effect(pre: Module, post: Module, buyer: AccountId, id: H256, max_price: Balance)
    requires
        pre.wf(),
        post.wf(),
        purchase_terms(pre, buyer, id, max_price) is Ok,
        Module::reassigned(pre, post, purchase_terms(pre, buyer, id, max_price)->Ok_0.to, buyer, id),
        post.chocos() == pre.chocos().update(pre.pos(id), Chocobo { price: 0, ..pre.chocos()[pre.pos(id)] }),
    ensures
        post.owner_of_spec(id) == Some(buyer),
        (post.chocobo_of(id)->Some_0).price == 0,
        purchase_terms(pre, buyer, id, max_price)->Ok_0.from == buyer,
        Some(purchase_terms(pre, buyer, id, max_price)->Ok_0.to) == pre.owner_of_spec(id),
        purchase_terms(pre, buyer, id, max_price)->Ok_0.amount == (pre.chocobo_of(id)->Some_0).price,
        purchase_terms(pre, buyer, id, max_price)->Ok_0.amount <= max_price,
{
    let seller = purchase_terms(pre, buyer, id, max_price)->Ok_0.to;
    lemma_reassign_effect(pre, post, seller, buyer, id);
    pre.lemma_pos(id);
    pre.lemma_counts_bounded();
    post.lemma_pos(id);
}

/// A race counts one race for each contender and one win for exactly one
/// of them; the first wins a tie.
pub proof fn lemma_race_counts(c1: Chocobo, c2: Chocobo)
    requires
        !race_overflows(c1, c2),
    ensures
        raced_first(c1, c2).races == c1.races + 1,
        raced_second(c1, c2).races == c2.races + 1,
        (raced_first(c1, c2).wins == c1.wins + 1 && raced_second(c1, c2).wins == c2.wins) || (
        raced_first(c1, c2).wins == c1.wins && raced_second(c1, c2).wins == c2.wins + 1),
        duel(c1.dna@, c2.dna@) == 0 ==> raced_first(c1, c2).wins == c1.wins + 1,
        raced_first(c1, c2).id == c1.id && raced_first(c1, c2).dna == c1.dna,
        raced_second(c1, c2).id == c2.id && raced_second(c1, c2).dna == c2.dna,
{
}

/// After a race between two distinct creatures, each holds its raced
/// record: one more race each, and one more win for the winner alone.
pub proof fn lemma_race_effect(pre: Module, post: Module, id1: H256, id2: H256)
    requires
        pre.wf(),
        pre.contains(id1),
        pre.contains(id2),
        id1 != id2,
        post.ids() == pre.ids(),
        post.chocos() == pre.chocos().update(
            pre.pos(id1),
            raced_first(pre.chocobo_of(id1)->Some_0, pre.chocobo_of(id2)->Some_0),
        ).update(pre.pos(id2), raced_second(pre.chocobo_of(id1)->Some_0, pre.chocobo_of(id2)->Some_0)),
    ensures
        post.chocobo_of(id1) == Some(raced_first(pre.chocobo_of(id1)->Some_0, pre.chocobo_of(id2)->Some_0)),
        post.chocobo_of(id2) == Some(raced_second(pre.chocobo_of(id1)->Some_0, pre.chocobo_of(id2)->Some_0)),
        first_wins(pre.chocobo_of(id1)->Some_0, pre.chocobo_of(id2)->Some_0) == (duel(
            (pre.chocobo_of(id1)->Some_0).dna@,
            (pre.chocobo_of(id2)->Some_0).dna@,
        ) >= 0),
{
    pre.lemma_pos(id1);
    pre.lemma_pos(id2);
    pre.lemma_counts_bounded();
}

} // verus!
