use vstd::prelude::*;

verus! {

/// The byte a child inherits at one position: the mare's where the random
/// byte is even, else the sire's.
pub open spec fn inherited(sire: u8, mare: u8, rand: u8) -> u8 {
    if rand % 2 == 0 {
        mare
    } else {
        sire
    }
}

/// The genome a child inherits, position by position.
pub open spec fn crossed(sire: Seq<u8>, mare: Seq<u8>, rand: Seq<u8>) -> Seq<u8> {
    Seq::new(sire.len(), |i: int| inherited(sire[i], mare[i], rand[i]))
}

/// Per-position crossover of two parent genomes, driven by random bytes.
pub fn crossover<const N: usize>(sire: &[u8; N], mare: &[u8; N], rand: &[u8; N]) -> (child: [u8; N])
    ensures
        child@ == crossed(sire@, mare@, rand@),
        forall|i: int| 0 <= i < N ==> child[i] == inherited(sire[i], mare[i], rand[i]),
        forall|i: int| 0 <= i < N ==> child[i] == sire[i] || child[i] == mare[i],
{
    let mut child: [u8; N] = *sire;
    let mut i: usize = 0;
    while i < N
        invariant
            i <= N,
            forall|j: int| 0 <= j < i ==> child[j] == inherited(sire[j], mare[j], rand[j]),
            forall|j: int| i <= j < N ==> child[j] == sire[j],
        decreases N - i,
    {
        if rand[i] % 2 == 0 {
            child[i] = mare[i];
        }
        i = i + 1;
    }
    assert(child@ =~= crossed(sire@, mare@, rand@));
    child
}

/// The score of the first `n` positions of a duel: `+1` for each position
/// where the first genome's byte is at least the second's, `-1` otherwise.
pub open spec fn duel_score(g1: Seq<u8>, g2: Seq<u8>, n: nat) -> int
    decreases n,
{
    if n == 0 {
        0
    } else {
        duel_score(g1, g2, (n - 1) as nat) + if g1[n - 1] >= g2[n - 1] {
            1int
        } else {
            -1int
        }
    }
}

/// The outcome of a duel: the score over the positions both genomes have.
pub open spec fn duel(g1: Seq<u8>, g2: Seq<u8>) -> int {
    duel_score(g1, g2, if g1.len() <= g2.len() { g1.len() } else { g2.len() })
}

proof fn lemma_duel_score_bound(g1: Seq<u8>, g2: Seq<u8>, n: nat)
    ensures
        -(n as int) <= duel_score(g1, g2, n) <= n,
    decreases n,
{
    if n > 0 {
        lemma_duel_score_bound(g1, g2, (n - 1) as nat);
    }
}

/// Compares two genomes position by position; a non-negative outcome means
/// that the first contender wins.
pub fn duel_outcome(g1: &[u8], g2: &[u8]) -> (outcome: i64)
    requires
        g1@.len() <= i64::MAX,
    ensures
        outcome == duel(g1@, g2@),
{
    let n: usize = if g1.len() <= g2.len() { g1.len() } else { g2.len() };
    let mut outcome: i64 = 0;
    let mut i: usize = 0;
    while i < n
        invariant
            i <= n,
            n == (if g1@.len() <= g2@.len() { g1@.len() } else { g2@.len() }),
            n <= i64::MAX,
            outcome == duel_score(g1@, g2@, i as nat),
        decreases n - i,
    {
        proof {
            lemma_duel_score_bound(g1@, g2@, i as nat);
        }
        if g1[i] >= g2[i] {
            outcome = outcome + 1;
        } else {
            outcome = outcome - 1;
        }
        i = i + 1;
    }
    outcome
}

} // verus!
