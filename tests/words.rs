use rustle::{parse_candidates, select_target, TargetError};

#[test]
fn candidates_one_per_line() {
    assert_eq!(parse_candidates("chair\ntable\n"), vec!["chair", "table"]);
    assert_eq!(parse_candidates("chair\ntable"), vec!["chair", "table"]);
}

#[test]
fn candidates_drop_carriage_returns_and_blank_lines() {
    assert_eq!(
        parse_candidates("chair\r\n\n\r\ntable\r\nsofa"),
        vec!["chair", "table", "sofa"]
    );
}

#[test]
fn candidates_of_empty_text() {
    assert!(parse_candidates("").is_empty());
    assert!(parse_candidates("\n\n").is_empty());
}

#[test]
fn empty_source_is_an_error() {
    assert_eq!(select_target(""), Err(TargetError::EmptySource));
    assert_eq!(select_target("\r\n"), Err(TargetError::EmptySource));
}

#[test]
fn single_candidate_is_chosen() {
    assert_eq!(select_target("chair\n"), Ok(String::from("chair")));
}

#[test]
fn chosen_target_is_a_candidate() {
    let list = "chair\ntable\nsofas\nlamps\n";
    for _ in 0..20 {
        let w = select_target(list).unwrap();
        assert!(["chair", "table", "sofas", "lamps"].contains(&w.as_str()));
    }
}
