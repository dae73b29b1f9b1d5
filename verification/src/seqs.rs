//! Sequences that repeat.

use vstd::prelude::*;

verus! {

/// `round` written out `times` times in a row.
pub open spec fn repeated<A>(round: Seq<A>, times: nat) -> Seq<A>
    decreases times,
{
    if times == 0 {
        Seq::empty()
    } else {
        round + repeated(round, (times - 1) as nat)
    }
}

/// Nothing repeated is nothing.
pub proof fn lemma_repeated_empty<A>(times: nat)
    ensures
        repeated(Seq::<A>::empty(), times) == Seq::<A>::empty(),
    decreases times,
{
    if times > 0 {
        lemma_repeated_empty::<A>((times - 1) as nat);
        assert(Seq::<A>::empty() + Seq::<A>::empty() =~= Seq::<A>::empty());
    }
}

/// A repeated sequence is as long as its round times the number of rounds.
pub proof fn lemma_repeated_len<A>(round: Seq<A>, times: nat)
    ensures
        repeated(round, times).len() == round.len() * times,
    decreases times,
{
    if times > 0 {
        lemma_repeated_len(round, (times - 1) as nat);
        assert(round.len() * times == round.len() + round.len() * (times - 1)) by (nonlinear_arith);
    } else {
        assert(round.len() * 0 == 0);
    }
}

/// The item at a position of a repeated sequence is the item of the round at
/// that position, counted round after round.
pub proof fn lemma_repeated_index<A>(round: Seq<A>, times: nat, i: int)
    requires
        0 <= i < round.len() * times,
    ensures
        round.len() > 0,
        repeated(round, times).len() == round.len() * times,
        repeated(round, times)[i] == round[i % (round.len() as int)],
    decreases times,
{
    lemma_repeated_len(round, times);
    if round.len() == 0 {
        assert(round.len() * times == 0) by (nonlinear_arith)
            requires
                round.len() == 0,
        ;
    }
    let n = round.len() as int;
    if times > 0 {
        lemma_repeated_len(round, (times - 1) as nat);
        if i < n {
            assert(i % n == i) by (nonlinear_arith)
                requires
                    0 <= i < n,
            ;
        } else {
            assert(round.len() * times == round.len() + round.len() * (times - 1))
                by (nonlinear_arith);
            lemma_repeated_index(round, (times - 1) as nat, i - n);
            assert((i - n) % n == i % n) by (nonlinear_arith)
                requires
                    n > 0,
                    i >= n,
            ;
        }
    }
}

} // verus!
