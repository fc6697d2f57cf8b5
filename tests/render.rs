use rustle::{
    apply_color, color_char, error_message, format_missed_word, outcome_message,
    process_player_guess, render_screen, string_of, to_ascii_lower, GameState, InputError,
    TextColor, ALPHABET, GAME_TITLE,
};

#[test]
fn color_char_wraps_letter() {
    assert_eq!(color_char('a', TextColor::Red), "\x1b[41ma\x1b[0m");
    assert_eq!(color_char('Z', TextColor::Green), "\x1b[42mZ\x1b[0m");
}

#[test]
fn ascii_lower_only_touches_capitals() {
    assert_eq!(to_ascii_lower('A'), 'a');
    assert_eq!(to_ascii_lower('Z'), 'z');
    assert_eq!(to_ascii_lower('q'), 'q');
    assert_eq!(to_ascii_lower('<'), '<');
    assert_eq!(to_ascii_lower('\u{c9}'), '\u{c9}');
}

#[test]
fn apply_color_marks_known_letters() {
    let r = apply_color("A B c", &vec!['b'], &vec!['a', 'b']);
    assert_eq!(r, "\x1b[42mA\x1b[0m \x1b[41mB\x1b[0m c");
}

#[test]
fn apply_color_without_letters_is_identity() {
    assert_eq!(apply_color(ALPHABET, &vec![], &vec![]), ALPHABET);
    assert_eq!(apply_color("", &vec!['a'], &vec!['b']), "");
}

#[test]
fn missed_word_line() {
    assert_eq!(format_missed_word(&String::from("pbldo")), "+ pbldo  \u{274c}");
}

#[test]
fn messages() {
    assert_eq!(error_message(InputError::InvalidLength), "Invalid length!");
    let g = GameState::new(String::from("chair"));
    assert_eq!(outcome_message(&g), "You lost! X");
    let g = process_player_guess(String::from("chair"), &g);
    assert_eq!(outcome_message(&g), "You won! \u{1f91f}");
}

#[test]
fn string_of_takes_prefix() {
    assert_eq!(string_of(&vec!['a', 'b', 'c'], 2), "ab");
    assert_eq!(string_of(&vec!['a'], 0), "");
}

#[test]
fn screen_layout() {
    let g = GameState::new(String::from("chair"));
    let g = process_player_guess(String::from("pbldo"), &g);
    let g = process_player_guess(String::from("toolong"), &g);
    let alphabet = apply_color(ALPHABET, &g.misses, &g.hits);
    let expected = format!(
        "{}\n{}\n\n+ pbldo  \u{274c}\nInvalid length!\n\n> ",
        GAME_TITLE, alphabet
    );
    assert_eq!(render_screen(&g), expected);
    // Misses are compared with the small form of each alphabet letter.
    assert!(alphabet.contains("\x1b[41mB\x1b[0m"));
    assert!(alphabet.contains("\x1b[41mO\x1b[0m"));
    assert!(!alphabet.contains("\x1b[41mA\x1b[0m"));
}

#[test]
fn screen_of_fresh_game() {
    let g = GameState::new(String::from("chair"));
    assert_eq!(
        render_screen(&g),
        format!("{}\n{}\n\n\n> ", GAME_TITLE, ALPHABET)
    );
}
