use tinyolap::frontend::parser::parse;

#[test]
fn parses_valid_select() {
    let result = parse("SELECT id from users");
    assert!(result.is_ok());
}

#[test]
fn parses_valid_insert() {
    let result = parse("INSERT INTO users VALUES (1, 'alice')");
    assert!(result.is_ok())
}

#[test]
fn rejects_empty_input() {
    let result = parse("");
    assert!(result.is_err());
}

#[test]
fn rejects_invalid_sql() {
    let result = parse("THIS IS NOT AN SQL QUERY");
    assert!(result.is_err());
}

#[test]
fn empty_input_message_and_first_statement() {
    assert_eq!(parse("").unwrap_err(), "empty input");
    assert_eq!(parse("   ").unwrap_err(), "empty input");
    let first = parse("SELECT a FROM t; SELECT b FROM u").unwrap();
    assert_eq!(first.to_string(), "SELECT a FROM t");
}

#[test]
fn parse_error_carries_the_parser_text() {
    let e = parse("SELECT * FROM (").unwrap_err();
    assert!(!e.is_empty());
    assert_ne!(e, "empty input");
}
