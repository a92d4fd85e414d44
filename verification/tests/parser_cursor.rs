use noord::layout::parser::Parser;

#[test]
fn new_parser_is_at_the_start() {
    let p = Parser::new(String::from("ab"));
    assert!(!p.eof());
    assert_eq!(p.next_char(), 'a');
    assert!(Parser::new(String::new()).eof());
}

#[test]
fn next_char_does_not_consume() {
    let p = Parser::new(String::from("xy"));
    assert_eq!(p.next_char(), 'x');
    assert_eq!(p.next_char(), 'x');
}

#[test]
fn consume_char_moves_on_by_one_character() {
    let mut p = Parser::new(String::from("a\u{e9}\u{4e16}b"));
    assert_eq!(p.consume_char(), 'a');
    assert_eq!(p.consume_char(), '\u{e9}');
    assert_eq!(p.next_char(), '\u{4e16}');
    assert_eq!(p.consume_char(), '\u{4e16}');
    assert_eq!(p.consume_char(), 'b');
    assert!(p.eof());
}

#[test]
fn starts_with_looks_at_what_is_left() {
    let mut p = Parser::new(String::from("<div>"));
    assert!(p.starts_with("<"));
    assert!(p.starts_with("<div>"));
    assert!(p.starts_with(""));
    assert!(!p.starts_with("div"));
    assert!(!p.starts_with("<div>x"));
    p.consume_char();
    assert!(p.starts_with("div"));
    assert!(!p.starts_with("<"));
}

#[test]
fn consume_while_takes_the_longest_run() {
    let mut p = Parser::new(String::from("abc123"));
    assert_eq!(p.consume_while(|c| c.is_alphabetic()), "abc");
    assert_eq!(p.next_char(), '1');
    assert_eq!(p.consume_while(|c| c.is_alphabetic()), "");
    assert_eq!(p.next_char(), '1');
    assert_eq!(p.consume_while(|c| c.is_ascii_digit()), "123");
    assert!(p.eof());
    assert_eq!(p.consume_while(|_| true), "");
}

#[test]
fn consume_whitespace_stops_at_the_first_other_character() {
    let mut p = Parser::new(String::from(" \t\n x y"));
    p.consume_whitespace();
    assert_eq!(p.next_char(), 'x');
    p.consume_whitespace();
    assert_eq!(p.consume_char(), 'x');
    p.consume_whitespace();
    assert_eq!(p.consume_char(), 'y');
    p.consume_whitespace();
    assert!(p.eof());
}
