//! The state of a match and the turn engine that advances it.
use vstd::prelude::*;
use vstd::string::*;
use crate::letters::{absorb_guess, hit_set, miss_set};

verus! {

/// Longest guess, in letters, that a turn accepts.
pub const WORD_LENGTH: usize = 5;

/// Number of accepted guesses after which a match is lost.
pub const MAX_ATTEMPTS: usize = 5;

/// Why a raw guess was rejected before it could count as a turn.
#[derive(Clone, Copy, Debug, PartialEq, Eq, Structural, Hash)]
pub enum InputError {
    InvalidLength,
}

/// The record of one match.
///
/// `hits`, `misses` and `errors` are sets kept as lists without repeats.
/// Errors accumulate: once a guess was rejected the error stays recorded.
#[derive(Debug)]
pub struct GameState {
    pub player_won: bool,
    pub guesses: Vec<String>,
    pub misses: Vec<char>,
    pub hits: Vec<char>,
    pub target: String,
    pub errors: Vec<InputError>,
}

/// What a match is, as mathematics.
pub struct GameView {
    pub target: Seq<char>,
    pub guesses: Seq<Seq<char>>,
    pub hits: Set<char>,
    pub misses: Set<char>,
    pub errors: Set<InputError>,
    pub player_won: bool,
}

impl View for GameState {
    type V = GameView;

    open spec fn view(&self) -> GameView {
        GameView {
            target: self.target@,
            guesses: self.guesses.deep_view(),
            hits: self.hits@.to_set(),
            misses: self.misses@.to_set(),
            errors: self.errors@.to_set(),
            player_won: self.player_won,
        }
    }
}

/// Every hit letter occurs in the target and no miss letter does; so the two
/// sets are disjoint.
pub open spec fn consistent(s: GameView) -> bool {
    &&& forall|c: char| s.hits.contains(c) ==> s.target.contains(c)
    &&& forall|c: char| s.misses.contains(c) ==> !s.target.contains(c)
}

/// The state after the raw guess `g` was applied to `s`.
pub open spec fn step(s: GameView, g: Seq<char>) -> GameView {
    if g.len() == 0 {
        s
    } else if g.len() > WORD_LENGTH {
        GameView { errors: s.errors.insert(InputError::InvalidLength), ..s }
    } else if g == s.target {
        GameView { player_won: true, ..s }
    } else {
        GameView {
            guesses: s.guesses.push(g),
            hits: s.hits.union(hit_set(g, s.target)),
            misses: s.misses.union(miss_set(g, s.target)),
            ..s
        }
    }
}

/// Whether a match in state `s` has ended.
pub open spec fn is_over(s: GameView) -> bool {
    s.player_won || s.guesses.len() >= MAX_ATTEMPTS
}

impl GameState {
    /// The lists hold no repeats and the letter sets agree with the target.
    pub open spec fn wf(&self) -> bool {
        &&& self.hits@.no_duplicates()
        &&& self.misses@.no_duplicates()
        &&& self.errors@.no_duplicates()
        &&& consistent(self@)
    }

    /// A fresh match on `target`: no guesses, no letters, no errors, not won.
    pub fn new(target: String) -> (r: GameState)
        ensures
            r@.target == target@,
            r@.guesses == Seq::<Seq<char>>::empty(),
            r@.hits == Set::<char>::empty(),
            r@.misses == Set::<char>::empty(),
            r@.errors == Set::<InputError>::empty(),
            !r@.player_won,
            r.wf(),
    {
        let r = GameState {
            player_won: false,
            guesses: Vec::new(),
            misses: Vec::new(),
            hits: Vec::new(),
            target,
            errors: Vec::new(),
        };
        assert(r@.guesses =~= Seq::<Seq<char>>::empty());
        assert(r@.hits =~= Set::<char>::empty());
        assert(r@.misses =~= Set::<char>::empty());
        assert(r@.errors =~= Set::<InputError>::empty());
        r
    }

    /// An independent copy with the same contents.
    pub fn duplicate(&self) -> (r: GameState)
        ensures
            r@ == self@,
            r.hits@ == self.hits@,
            r.misses@ == self.misses@,
            r.errors@ == self.errors@,
    {
        let mut guesses: Vec<String> = Vec::new();
        let mut i: usize = 0;
        while i < self.guesses.len()
            invariant
                i <= self.guesses@.len(),
                guesses.deep_view() =~= self.guesses.deep_view().take(i as int),
            decreases self.guesses@.len() - i,
        {
            let g = self.guesses[i].clone();
            let ghost prev = guesses.deep_view();
            guesses.push(g);
            assert(guesses.deep_view() =~= prev.push(g@));
            assert(self.guesses.deep_view().take(i + 1) =~= self.guesses.deep_view().take(
                i as int,
            ).push(g@));
            i += 1;
        }
        assert(guesses.deep_view() =~= self.guesses.deep_view());
        let mut hits: Vec<char> = Vec::new();
        let mut i: usize = 0;
        while i < self.hits.len()
            invariant
                i <= self.hits@.len(),
                hits@ =~= self.hits@.take(i as int),
            decreases self.hits@.len() - i,
        {
            hits.push(self.hits[i]);
            i += 1;
        }
        let mut misses: Vec<char> = Vec::new();
        let mut i: usize = 0;
        while i < self.misses.len()
            invariant
                i <= self.misses@.len(),
                misses@ =~= self.misses@.take(i as int),
            decreases self.misses@.len() - i,
        {
            misses.push(self.misses[i]);
            i += 1;
        }
        let mut errors: Vec<InputError> = Vec::new();
        let mut i: usize = 0;
        while i < self.errors.len()
            invariant
                i <= self.errors@.len(),
                errors@ =~= self.errors@.take(i as int),
            decreases self.errors@.len() - i,
        {
            errors.push(self.errors[i]);
            i += 1;
        }
        assert(hits@ =~= self.hits@);
        assert(misses@ =~= self.misses@);
        assert(errors@ =~= self.errors@);
        GameState {
            player_won: self.player_won,
            guesses,
            misses,
            hits,
            target: self.target.clone(),
            errors,
        }
    }
}

/// Adds `e` to the error list `v`, read as a set.
fn record_error(v: &mut Vec<InputError>, e: InputError)
    ensures
        final(v)@.to_set() == old(v)@.to_set().insert(e),
        old(v)@.no_duplicates() ==> final(v)@.no_duplicates(),
{
    let mut i: usize = 0;
    while i < v.len()
        invariant
            i <= v@.len(),
            forall|j: int| 0 <= j < i ==> v@[j] != e,
        decreases v@.len() - i,
    {
        if v[i] == e {
            assert(v@[i as int] == e);
            assert(v@.to_set() =~= v@.to_set().insert(e));
            return;
        }
        i += 1;
    }
    let ghost before = v@;
    v.push(e);
    assert(final(v)@.to_set() =~= before.to_set().insert(e)) by {
        assert forall|x: InputError| before.contains(x) implies final(v)@.contains(x) by {
            let j = choose|j: int| 0 <= j < before.len() && before[j] == x;
            assert(final(v)@[j] == x);
        }
        assert(final(v)@[before.len() as int] == e);
    }
}

/// Whether the match has ended: won, or out of attempts.
pub fn should_finish(game: &GameState) -> (r: bool)
    ensures
        r == is_over(game@),
{
    game.player_won || game.guesses.len() >= MAX_ATTEMPTS
}

/// Applies one raw line of input to `state` and returns the next state;
/// `state` itself is left as it was.
///
/// An empty guess changes nothing. One longer than the word length, counted
/// in characters, records `InvalidLength`. One equal to the target, case
/// included, wins and is not recorded as a guess. Any other is recorded and
/// its letters are sorted into hits and misses, again case included.
pub fn process_player_guess(guess: String, state: &GameState) -> (r: GameState)
    ensures
        r@ == step(state@, guess@),
        state.wf() ==> r.wf(),
{
    let mut new_state = state.duplicate();
    let len = guess.as_str().unicode_len();
    if len == 0 {
        return new_state;
    }
    if len > WORD_LENGTH {
        record_error(&mut new_state.errors, InputError::InvalidLength);
        assert(new_state@ == step(state@, guess@));
        assert(consistent(state@) ==> consistent(new_state@));
        return new_state;
    }
    if guess == new_state.target {
        new_state.player_won = true;
        return new_state;
    }
    new_state.guesses.push(guess.clone());
    assert(new_state.guesses.deep_view() =~= state.guesses.deep_view().push(guess@));
    absorb_guess(
        &mut new_state.hits,
        &mut new_state.misses,
        guess.as_str(),
        new_state.target.as_str(),
    );
    assert(new_state@ == step(state@, guess@));
    assert(consistent(state@) ==> consistent(new_state@)) by {
        if consistent(state@) {
            assert forall|c: char| new_state@.hits.contains(c) implies state@.target.contains(c) by {
                if !state@.hits.contains(c) {
                    assert(hit_set(guess@, state@.target).contains(c));
                }
            }
            assert forall|c: char| new_state@.misses.contains(c) implies !state@.target.contains(
                c,
            ) by {
                if !state@.misses.contains(c) {
                    assert(miss_set(guess@, state@.target).contains(c));
                }
            }
        }
    }
    new_state
}

} // verus!
