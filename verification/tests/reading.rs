use rusptlib::parse::{tokenize, trim_chars, Token};
use rusptlib::text::{chars_of, string_of};
use rusptlib::{parse, print, print_cell, LispCell, LispError, Number, Runtime};

fn round_trip(text: &str) -> String {
    let mut rt = Runtime::new();
    let program = parse(text.to_string(), &mut rt).expect("the text should parse");
    print(&program, &rt)
}

fn parse_error(text: &str) -> LispError {
    let mut rt = Runtime::new();
    parse(text.to_string(), &mut rt).expect_err("the text should not parse")
}

#[test]
fn canonical_text_prints_as_it_was_read() {
    for text in [
        "x",
        "1",
        "-5",
        "0.5",
        "12.345678",
        "()",
        "(a)",
        "(a b c)",
        "(+ 1 2)",
        "'x",
        "''x",
        "'(1 2)",
        "(a (b (c (d))) e)",
        "(print (+ 1 2) '(1 (+ 1 2)) (- 3 5))",
        "(do (print (+ 1 2) (- 1 2)) (foo bar baz (qux (+ 1 2) (blah) blah)))",
        "\"hello\"",
        "(say \"hi\" 'there)",
        "don't",
        "a'b",
        "(() () (()))",
    ] {
        assert_eq!(round_trip(text), text);
    }
}

#[test]
fn white_space_is_normalized() {
    assert_eq!(round_trip("  ( +   1\n\t2 )\r\n"), "(+ 1 2)");
    assert_eq!(round_trip("(a(b)c)"), "(a (b) c)");
    assert_eq!(round_trip("' x"), "'x");
    assert_eq!(round_trip("007"), "7");
    assert_eq!(round_trip("1.50"), "1.5");
    assert_eq!(round_trip("-0"), "0");
}

#[test]
fn the_text_of_a_program_is_trimmed() {
    let mut rt = Runtime::new();
    let program = parse("  \n (+ 1  2) \t ".to_string(), &mut rt).unwrap();
    assert_eq!(program.text, "(+ 1  2)");
    let chars: Vec<char> = " \t a b \r\n".chars().collect();
    let trimmed: String = trim_chars(&chars).into_iter().collect();
    assert_eq!(trimmed, "a b");
    assert_eq!(trim_chars(&Vec::new()).len(), 0);
    let blank: Vec<char> = "  \n ".chars().collect();
    assert_eq!(trim_chars(&blank).len(), 0);
}

#[test]
fn a_text_without_a_program_has_no_entry() {
    let mut rt = Runtime::new();
    let program = parse("".to_string(), &mut rt).unwrap();
    assert!(program.entry.is_none());
    assert_eq!(program.text, "");
    assert_eq!(print(&program, &rt), "");
    let program = parse("   \n ".to_string(), &mut rt).unwrap();
    assert!(program.entry.is_none());
}

#[test]
fn the_last_expression_of_a_text_is_its_entry() {
    assert_eq!(round_trip("(a) (b)"), "(b)");
    assert_eq!(round_trip("1 2 3"), "3");
}

#[test]
fn an_opening_parenthesis_needs_a_closing_one() {
    assert_eq!(parse_error("(a (b c"), LispError::UnmatchedParen);
    assert_eq!(parse_error("("), LispError::UnmatchedParen);
    assert_eq!(parse_error("(a (b) c"), LispError::UnmatchedParen);
    assert_eq!(parse_error("'("), LispError::UnmatchedParen);
}

#[test]
fn a_closing_parenthesis_needs_an_opening_one() {
    assert_eq!(parse_error(")"), LispError::UnmatchedParen);
    assert_eq!(parse_error("(a))"), LispError::UnmatchedParen);
    assert_eq!(parse_error("a b )"), LispError::UnmatchedParen);
    assert_eq!(parse_error("')"), LispError::UnmatchedParen);
    assert_eq!(parse_error(")("), LispError::UnmatchedParen);
}

#[test]
fn a_quote_needs_something_to_quote() {
    assert_eq!(parse_error("'"), LispError::ArityMismatch);
    assert_eq!(parse_error("(a ')"), LispError::ArityMismatch);
    assert_eq!(parse_error("(a '"), LispError::UnmatchedParen);
    assert_eq!(parse_error("(a) '"), LispError::ArityMismatch);
    assert_eq!(parse_error("x '"), LispError::ArityMismatch);
}

#[test]
fn words_become_numbers_strings_and_atoms() {
    let chars: Vec<char> = "(foo -12.5 \"bar\" 'x - \")".chars().collect();
    let tokens = tokenize(&chars);
    assert_eq!(tokens.len(), 9);
    assert!(matches!(tokens[0], Token::Open));
    assert!(matches!(&tokens[1], Token::Word(LispCell::Atom(name)) if name == "foo"));
    assert!(matches!(tokens[2], Token::Word(LispCell::Number(Number { units: -12_500_000 }))));
    assert!(matches!(&tokens[3], Token::Word(LispCell::Str(s)) if s == "bar"));
    assert!(matches!(tokens[4], Token::Quote));
    assert!(matches!(&tokens[5], Token::Word(LispCell::Atom(name)) if name == "x"));
    assert!(matches!(&tokens[6], Token::Word(LispCell::Atom(name)) if name == "-"));
    assert!(matches!(&tokens[7], Token::Word(LispCell::Atom(name)) if name == "\""));
    assert!(matches!(tokens[8], Token::Close));
}

#[test]
fn an_empty_string_literal() {
    let mut rt = Runtime::new();
    let program = parse("\"\"".to_string(), &mut rt).unwrap();
    assert!(matches!(&program.entry, Some(LispCell::Str(s)) if s.is_empty()));
    assert_eq!(print(&program, &rt), "\"\"");
}

#[test]
fn each_list_of_a_text_is_a_list_of_its_own() {
    let mut rt = Runtime::new();
    let program = parse("((a) (a))".to_string(), &mut rt).unwrap();
    let outer = match program.entry {
        Some(LispCell::List(l)) => l,
        _ => panic!("the entry should be a list"),
    };
    let items = rt.items(outer);
    let (first, second) = match (&items[0], &items[1]) {
        (LispCell::List(a), LispCell::List(b)) => (*a, *b),
        _ => panic!("the items should be lists"),
    };
    assert_ne!(first.chain, second.chain);
    assert_ne!(first.chain, outer.chain);
    first.push_back(&mut rt, LispCell::Bool(true)).unwrap();
    assert_eq!(print_cell(&LispCell::List(outer), &rt), "((a true) (a))");
}

#[test]
fn characters_and_strings() {
    assert_eq!(chars_of("a(é"), vec!['a', '(', 'é']);
    assert_eq!(chars_of(""), Vec::<char>::new());
    let chars = vec!['h', 'e', 'l', 'l', 'o'];
    assert_eq!(string_of(&chars, 1, 4), "ell");
    assert_eq!(string_of(&chars, 0, 5), "hello");
    assert_eq!(string_of(&chars, 2, 2), "");
}

#[test]
fn unicode_words_are_atoms() {
    assert_eq!(round_trip("(λ ünï 日本)"), "(λ ünï 日本)");
}
