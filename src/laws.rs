//! Facts that hold of every match, proved over the mathematical model.
use vstd::prelude::*;
use crate::game::{consistent, is_over, step, GameView, InputError, MAX_ATTEMPTS, WORD_LENGTH};
use crate::letters::{hit_set, miss_set};

verus! {

/// The state after the raw guesses `gs` were applied to `s`, in order.
pub open spec fn play(s: GameView, gs: Seq<Seq<char>>) -> GameView
    decreases gs.len(),
{
    if gs.len() == 0 {
        s
    } else {
        play(step(s, gs[0]), gs.drop_first())
    }
}

/// A guess longer than the word length is not recorded as a guess, and
/// `InvalidLength` is then among the errors.
pub proof fn overlong_guess_is_rejected(s: GameView, g: Seq<char>)
    requires
        g.len() > WORD_LENGTH,
    ensures
        step(s, g).guesses == s.guesses,
        step(s, g).errors.contains(InputError::InvalidLength),
{
}

/// An empty guess leaves the state exactly as it was.
pub proof fn empty_guess_changes_nothing(s: GameView)
    ensures
        step(s, Seq::<char>::empty()) == s,
{
}

/// Guessing the target wins and records no guess, for a target of one to
/// five letters.
pub proof fn guessing_target_wins(s: GameView)
    requires
        0 < s.target.len() <= WORD_LENGTH,
    ensures
        step(s, s.target).player_won,
        step(s, s.target).guesses == s.guesses,
{
}

/// One turn only adds to the hit and miss letters, and keeps them in
/// agreement with the target, hence disjoint.
pub proof fn turn_grows_letters(s: GameView, g: Seq<char>)
    requires
        consistent(s),
    ensures
        s.hits.subset_of(step(s, g).hits),
        s.misses.subset_of(step(s, g).misses),
        consistent(step(s, g)),
        step(s, g).hits.disjoint(step(s, g).misses),
        step(s, g).target == s.target,
{
    let t = step(s, g);
    if 0 < g.len() <= WORD_LENGTH && g != s.target {
        assert forall|c: char| t.hits.contains(c) implies t.target.contains(c) by {
            if !s.hits.contains(c) {
                assert(hit_set(g, s.target).contains(c));
            }
        }
        assert forall|c: char| t.misses.contains(c) implies !t.target.contains(c) by {
            if !s.misses.contains(c) {
                assert(miss_set(g, s.target).contains(c));
            }
        }
    }
}

/// Over any sequence of turns the hit and miss letters only grow, and stay
/// disjoint.
pub proof fn turns_grow_letters(s: GameView, gs: Seq<Seq<char>>)
    requires
        consistent(s),
    ensures
        s.hits.subset_of(play(s, gs).hits),
        s.misses.subset_of(play(s, gs).misses),
        consistent(play(s, gs)),
        play(s, gs).hits.disjoint(play(s, gs).misses),
    decreases gs.len(),
{
    if gs.len() > 0 {
        turn_grows_letters(s, gs[0]);
        turns_grow_letters(step(s, gs[0]), gs.drop_first());
    }
}

/// Sorting the letters of one guess against one target a second time adds
/// nothing to what the first time gave.
pub proof fn classification_is_idempotent(
    hits: Set<char>,
    misses: Set<char>,
    g: Seq<char>,
    target: Seq<char>,
)
    ensures
        hits.union(hit_set(g, target)).union(hit_set(g, target)) == hits.union(
            hit_set(g, target),
        ),
        misses.union(miss_set(g, target)).union(miss_set(g, target)) == misses.union(
            miss_set(g, target),
        ),
{
    assert(hits.union(hit_set(g, target)).union(hit_set(g, target)) =~= hits.union(
        hit_set(g, target),
    ));
    assert(misses.union(miss_set(g, target)).union(miss_set(g, target)) =~= misses.union(
        miss_set(g, target),
    ));
}

/// From a match that is not over, one turn ends it exactly when it wins or
/// brings the guesses to the maximum; it never overshoots the maximum.
pub proof fn turn_ends_match_exactly(s: GameView, g: Seq<char>)
    requires
        !is_over(s),
    ensures
        step(s, g).guesses.len() <= MAX_ATTEMPTS,
        is_over(step(s, g)) <==> (step(s, g).player_won || step(s, g).guesses.len()
            == MAX_ATTEMPTS),
{
}

/// A match that is over stays over, whatever turns follow.
pub proof fn over_stays_over(s: GameView, gs: Seq<Seq<char>>)
    requires
        is_over(s),
    ensures
        is_over(play(s, gs)),
    decreases gs.len(),
{
    if gs.len() > 0 {
        over_stays_over(step(s, gs[0]), gs.drop_first());
    }
}

} // verus!
