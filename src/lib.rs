//! A word-guessing game engine: a hidden target word, guesses that are
//! checked against it letter by letter, and the rule that ends a match.
pub mod game;
pub mod laws;
pub mod letters;
pub mod render;
pub mod text;
pub mod words;

pub use game::{
    process_player_guess, should_finish, GameState, InputError, MAX_ATTEMPTS, WORD_LENGTH,
};
pub use letters::{add_letter, classify, has_letter, str_contains};
pub use render::{
    apply_color, color_char, error_message, format_missed_word, outcome_message, render_screen,
    to_ascii_lower, TextColor, ALPHABET, GAME_TITLE,
};
pub use text::string_of;
pub use words::{parse_candidates, select_target, TargetError};
