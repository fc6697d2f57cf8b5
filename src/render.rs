//! The text shown to the player: the alphabet coloured by what is known of
//! each letter, past guesses, error messages and the final verdict.
use vstd::prelude::*;
use vstd::string::*;
use crate::game::{GameState, InputError};
use crate::letters::has_letter;
use crate::text::{chars_of, push_char};

verus! {

/// Background colour of a marked letter.
#[derive(Clone, Copy, Debug, PartialEq, Eq, Structural)]
pub enum TextColor {
    Red,
    Green,
}

/// The terminal escape that starts a background colour.
pub open spec fn color_start(color: TextColor) -> Seq<char> {
    match color {
        TextColor::Red => "\x1b[41m"@,
        TextColor::Green => "\x1b[42m"@,
    }
}

/// The letter `c` on the background `color`.
pub open spec fn painted(c: char, color: TextColor) -> Seq<char> {
    color_start(color) + seq![c] + "\x1b[0m"@
}

/// `c` with an ASCII capital turned into its small letter.
pub open spec fn ascii_lower(c: char) -> char {
    if 'A' <= c <= 'Z' {
        ((c as u32) + 32) as char
    } else {
        c
    }
}

/// Returns `c` with an ASCII capital turned into its small letter.
pub fn to_ascii_lower(c: char) -> (r: char)
    ensures
        r == ascii_lower(c),
{
    if 'A' <= c && c <= 'Z' {
        ((c as u8) + 32) as char
    } else {
        c
    }
}

/// The letter `c` wrapped in the escapes for `color`.
pub fn color_char(c: char, color: TextColor) -> (r: String)
    ensures
        r@ == painted(c, color),
{
    let mut r = match color {
        TextColor::Red => String::from_str("\x1b[41m"),
        TextColor::Green => String::from_str("\x1b[42m"),
    };
    push_char(&mut r, c);
    r.append("\x1b[0m");
    r
}

/// How one letter of a text is shown: red when its small form is a known
/// miss, else green when it is a known hit, else as it is.
pub open spec fn paint_letter(l: char, misses: Set<char>, hits: Set<char>) -> Seq<char> {
    if misses.contains(ascii_lower(l)) {
        painted(l, TextColor::Red)
    } else if hits.contains(ascii_lower(l)) {
        painted(l, TextColor::Green)
    } else {
        seq![l]
    }
}

/// The text `s` with each letter shown as `paint_letter` says.
pub open spec fn paint_text(s: Seq<char>, misses: Set<char>, hits: Set<char>) -> Seq<char>
    decreases s.len(),
{
    if s.len() == 0 {
        Seq::empty()
    } else {
        paint_text(s.drop_last(), misses, hits) + paint_letter(s.last(), misses, hits)
    }
}

/// Colours each letter of `target_str` that is a known miss red and each
/// that is a known hit green, comparing by its small form.
pub fn apply_color(target_str: &str, missed_letters: &Vec<char>, hit_letters: &Vec<char>) -> (r:
    String)
    ensures
        r@ == paint_text(target_str@, missed_letters@.to_set(), hit_letters@.to_set()),
{
    let ghost ms = missed_letters@.to_set();
    let ghost hs = hit_letters@.to_set();
    let cs = chars_of(target_str);
    let mut r = String::new();
    let mut i: usize = 0;
    assert(cs@.take(0) =~= Seq::<char>::empty());
    while i < cs.len()
        invariant
            cs@ == target_str@,
            i <= cs@.len(),
            ms == missed_letters@.to_set(),
            hs == hit_letters@.to_set(),
            r@ == paint_text(cs@.take(i as int), ms, hs),
        decreases cs@.len() - i,
    {
        let l = cs[i];
        let low = to_ascii_lower(l);
        if has_letter(missed_letters, low) {
            let piece = color_char(l, TextColor::Red);
            r.append(piece.as_str());
        } else if has_letter(hit_letters, low) {
            let piece = color_char(l, TextColor::Green);
            r.append(piece.as_str());
        } else {
            push_char(&mut r, l);
        }
        assert(cs@.take(i + 1).drop_last() =~= cs@.take(i as int));
        i += 1;
    }
    assert(cs@.take(i as int) =~= cs@);
    r
}

/// A past guess as the list of guesses shows it.
pub open spec fn missed_line(w: Seq<char>) -> Seq<char> {
    "+ "@ + w + "  \u{274c}"@
}

/// Formats a past guess for the list of guesses.
pub fn format_missed_word(w: &String) -> (r: String)
    ensures
        r@ == missed_line(w@),
{
    let mut r = String::from_str("+ ");
    r.append(w.as_str());
    r.append("  \u{274c}");
    r
}

/// The banner at the top of the screen.
pub const GAME_TITLE: &'static str = "\n --- RUSTLE \u{1f980}\n";

/// The alphabet panel, whose letters are coloured as play goes on.
pub const ALPHABET: &'static str = "\n > A B C D E F\n G H I J L M N\n O P Q R S T U\n V W X Y Z < < ";

/// The message for a rejected guess.
pub open spec fn error_text(e: InputError) -> Seq<char> {
    match e {
        InputError::InvalidLength => "Invalid length!"@,
    }
}

/// Returns the message that tells the player why a guess was rejected.
pub fn error_message(e: InputError) -> (r: String)
    ensures
        r@ == error_text(e),
{
    match e {
        InputError::InvalidLength => String::from_str("Invalid length!"),
    }
}

/// The final line of a match.
pub open spec fn verdict(won: bool) -> Seq<char> {
    if won {
        "You won! \u{1f91f}"@
    } else {
        "You lost! X"@
    }
}

/// Returns the line that announces the end of a match.
pub fn outcome_message(game: &GameState) -> (r: String)
    ensures
        r@ == verdict(game.player_won),
{
    if game.player_won {
        String::from_str("You won! \u{1f91f}")
    } else {
        String::from_str("You lost! X")
    }
}

/// One line per past guess.
pub open spec fn guess_lines(gs: Seq<Seq<char>>) -> Seq<char>
    decreases gs.len(),
{
    if gs.len() == 0 {
        Seq::empty()
    } else {
        guess_lines(gs.drop_last()) + missed_line(gs.last()) + "\n"@
    }
}

/// One line per recorded error.
pub open spec fn error_lines(es: Seq<InputError>) -> Seq<char>
    decreases es.len(),
{
    if es.len() == 0 {
        Seq::empty()
    } else {
        error_lines(es.drop_last()) + error_text(es.last()) + "\n"@
    }
}

/// The whole screen for `game`: banner, coloured alphabet, a blank line, the
/// past guesses, the errors, a blank line and the prompt.
pub open spec fn screen(game: GameState) -> Seq<char> {
    GAME_TITLE@ + "\n"@ + paint_text(ALPHABET@, game.misses@.to_set(), game.hits@.to_set())
        + "\n\n"@ + guess_lines(game.guesses.deep_view()) + error_lines(game.errors@)
        + "\n> "@
}

/// Lays out the screen that shows `game` to the player.
pub fn render_screen(game: &GameState) -> (r: String)
    ensures
        r@ == screen(*game),
{
    let mut r = String::from_str(GAME_TITLE);
    r.append("\n");
    let alphabet = apply_color(ALPHABET, &game.misses, &game.hits);
    r.append(alphabet.as_str());
    r.append("\n\n");
    let ghost head = r@;
    let mut i: usize = 0;
    assert(game.guesses.deep_view().take(0) =~= Seq::<Seq<char>>::empty());
    while i < game.guesses.len()
        invariant
            i <= game.guesses@.len(),
            r@ == head + guess_lines(game.guesses.deep_view().take(i as int)),
        decreases game.guesses@.len() - i,
    {
        let line = format_missed_word(&game.guesses[i]);
        r.append(line.as_str());
        r.append("\n");
        let ghost gs = game.guesses.deep_view();
        assert(gs.take(i + 1).drop_last() =~= gs.take(i as int));
        assert(gs[i as int] == game.guesses@[i as int]@);
        i += 1;
    }
    assert(game.guesses.deep_view().take(i as int) =~= game.guesses.deep_view());
    let ghost mid = r@;
    let mut j: usize = 0;
    assert(game.errors@.take(0) =~= Seq::<InputError>::empty());
    while j < game.errors.len()
        invariant
            j <= game.errors@.len(),
            r@ == mid + error_lines(game.errors@.take(j as int)),
        decreases game.errors@.len() - j,
    {
        let line = error_message(game.errors[j]);
        r.append(line.as_str());
        r.append("\n");
        assert(game.errors@.take(j + 1).drop_last() =~= game.errors@.take(j as int));
        j += 1;
    }
    assert(game.errors@.take(j as int) =~= game.errors@);
    r.append("\n> ");
    r
}

} // verus!
