use silicon::fixed::SCALE;
use silicon::tokenize::{Lexer, Token};

fn number(n: i64) -> Token {
    Token::Number(n * SCALE)
}

fn name(s: &str) -> Token {
    Token::Identifier(s.to_string())
}

#[test]
fn test_simple_math() {
    let input = "1 + 2 * 3";
    let expected = vec![
        number(3),
        Token::Operator('*'),
        number(2),
        Token::Operator('+'),
        number(1),
    ];
    assert_eq!(Lexer::new(input).tokens, expected);

    let input = "1 + 2 * (3 - 4)";
    let expected = vec![
        Token::Operator(')'),
        number(4),
        Token::Operator('-'),
        number(3),
        Token::Operator('('),
        Token::Operator('*'),
        number(2),
        Token::Operator('+'),
        number(1),
    ];
    assert_eq!(Lexer::new(input).tokens, expected);

    let input = "a^2 + 4^3";
    let expected = vec![
        number(3),
        Token::Operator('^'),
        number(4),
        Token::Operator('+'),
        number(2),
        Token::Operator('^'),
        name("a"),
    ];
    assert_eq!(Lexer::new(input).tokens, expected);
}

#[test]
fn test_sub_expression() {
    let input = "I = sin(2*pi*freq*t) : amp";
    let expected = vec![
        name("amp"),
        Token::Operator(':'),
        Token::Operator(')'),
        name("t"),
        Token::Operator('*'),
        name("freq"),
        Token::Operator('*'),
        name("pi"),
        Token::Operator('*'),
        number(2),
        Token::Operator('('),
        name("sin"),
        Token::Operator('='),
        name("I"),
    ];
    assert_eq!(Lexer::new(input).tokens, expected);
}

#[test]
fn tokenize_test_equation() {
    let input = "dv/dt = -(v + I)/ tau : volt";
    let expected = vec![
        name("volt"),
        Token::Operator(':'),
        name("tau"),
        Token::Operator('/'),
        Token::Operator(')'),
        name("I"),
        Token::Operator('+'),
        name("v"),
        Token::Operator('('),
        Token::Operator('-'),
        Token::Operator('='),
        name("dt"),
        Token::Operator('/'),
        name("dv"),
    ];
    assert_eq!(Lexer::new(input).tokens, expected);
}

#[test]
fn test_float() {
    let input = "1.0 + 2.0";
    let expected = vec![number(2), Token::Operator('+'), number(1)];
    assert_eq!(Lexer::new(input).tokens, expected);
}

#[test]
fn tokenize_test_unit() {
    let input = "1.0*mV : volt";
    let expected = vec![
        name("volt"),
        Token::Operator(':'),
        name("mV"),
        Token::Operator('*'),
        number(1),
    ];
    assert_eq!(Lexer::new(input).tokens, expected);
}

#[test]
fn test_paran() {
    let input = "((1))";
    let expected = vec![
        Token::Operator(')'),
        Token::Operator(')'),
        number(1),
        Token::Operator('('),
        Token::Operator('('),
    ];
    assert_eq!(Lexer::new(input).tokens, expected);
}

#[test]
fn numbers_are_read_to_six_places() {
    assert_eq!(Lexer::new("0.2").tokens, vec![Token::Number(200_000)]);
    assert_eq!(Lexer::new("3.141592653").tokens, vec![Token::Number(3_141_592)]);
    assert_eq!(Lexer::new("0.000001").tokens, vec![Token::Number(1)]);
    assert_eq!(Lexer::new("0.0000009").tokens, vec![Token::Number(0)]);
    assert_eq!(Lexer::new("0025.50").tokens, vec![Token::Number(25_500_000)]);
}

#[test]
fn numbers_too_large_are_the_greatest_number() {
    assert_eq!(Lexer::new("9223372036854.775807").tokens, vec![Token::Number(i64::MAX)]);
    assert_eq!(Lexer::new("9223372036854.775806").tokens, vec![Token::Number(i64::MAX - 1)]);
    assert_eq!(Lexer::new("9223372036855").tokens, vec![Token::Number(i64::MAX)]);
    assert_eq!(
        Lexer::new("123456789012345678901234567890.5").tokens,
        vec![Token::Number(i64::MAX)]
    );
}

#[test]
fn point_without_digits_ends_the_tokens() {
    assert_eq!(Lexer::new("1. + 2").tokens, vec![number(1)]);
    assert_eq!(Lexer::new(".5").tokens, Vec::<Token>::new());
    assert_eq!(Lexer::new("1.5.5").tokens, vec![Token::Number(1_500_000)]);
}

#[test]
fn unknown_character_ends_the_tokens() {
    assert_eq!(Lexer::new("a + b ! c").tokens, vec![name("b"), Token::Operator('+'), name("a")]);
    assert_eq!(Lexer::new("a # b").tokens, vec![name("a")]);
    assert_eq!(Lexer::new("").tokens, Vec::<Token>::new());
    assert_eq!(Lexer::new(" \t\r\n ").tokens, Vec::<Token>::new());
}

#[test]
fn identifiers_are_letters_and_underscores() {
    assert_eq!(Lexer::new("I_leak").tokens, vec![name("I_leak")]);
    assert_eq!(Lexer::new("_x_").tokens, vec![name("_x_")]);
    assert_eq!(Lexer::new("x1").tokens, vec![number(1), name("x")]);
    assert_eq!(Lexer::new("\u{3c4}_m").tokens, vec![name("\u{3c4}_m")]);
    assert_eq!(Lexer::new("a\tb\nc").tokens, vec![name("c"), name("b"), name("a")]);
}

#[test]
fn tokens_have_their_text() {
    assert_eq!(number(1).to_string(), "1");
    assert_eq!(Token::Number(200_000).to_string(), "0.2");
    assert_eq!(Token::Number(-1_500_000).to_string(), "-1.5");
    assert_eq!(Token::Number(0).to_string(), "0");
    assert_eq!(Token::Number(1).to_string(), "0.000001");
    assert_eq!(Token::Number(-1).to_string(), "-0.000001");
    assert_eq!(Token::Number(120_030_000).to_string(), "120.03");
    assert_eq!(Token::Number(i64::MAX).to_string(), "9223372036854.775807");
    assert_eq!(Token::Number(i64::MIN).to_string(), "-9223372036854.775808");
    assert_eq!(Token::Operator('+').to_string(), "+");
    assert_eq!(name("volt").to_string(), "volt");
    assert_eq!(Token::Eof.to_string(), "EOF");
    assert_eq!(name("volt").chars(), vec!['v', 'o', 'l', 't']);
}

#[test]
fn token_copies_are_equal() {
    for t in [number(2), Token::Operator('^'), name("tau"), Token::Eof] {
        assert_eq!(t.clone(), t);
    }
    assert!(Token::Operator('=').is_operator('='));
    assert!(!Token::Operator('=').is_operator(':'));
    assert!(!name("x").is_operator('x'));
}

#[test]
fn lexer_reads_in_the_order_of_the_input() {
    let mut lexer = Lexer::new("a + 1");
    assert_eq!(lexer.peek(), name("a"));
    assert_eq!(lexer.next(), name("a"));
    assert_eq!(lexer.next(), Token::Operator('+'));
    assert_eq!(lexer.peek(), number(1));
    assert_eq!(lexer.next(), number(1));
    assert_eq!(lexer.peek(), Token::Eof);
    assert_eq!(lexer.next(), Token::Eof);
    assert_eq!(lexer.next(), Token::Eof);
}

#[test]
fn lexer_knows_an_assignment() {
    assert!(Lexer::new("x = 1").is_assignment());
    assert!(!Lexer::new("x + 1").is_assignment());
    assert!(!Lexer::new("").is_assignment());
}

#[test]
fn split_gives_the_whole_stack_and_the_stack_from_the_assignment_on() {
    let lexer = Lexer::new("x = 1 + 2");
    let (whole, from_assignment) = lexer.split_assignment();
    assert_eq!(whole.tokens, lexer.tokens);
    assert_eq!(from_assignment.tokens, vec![Token::Operator('='), name("x")]);
    let (_, first) = Lexer::new("a = b = c").split_assignment();
    assert_eq!(
        first.tokens,
        vec![Token::Operator('='), name("b"), Token::Operator('='), name("a")]
    );
}

#[test]
fn metadata_is_what_follows_the_first_colon() {
    let mut lexer = Lexer::new("x = 1 : volt");
    let metadata = lexer.take_metadata();
    assert_eq!(metadata, vec![Token::Operator(':'), name("volt")]);
    assert_eq!(lexer.tokens, vec![number(1), Token::Operator('='), name("x")]);

    let mut lexer = Lexer::new("x = 1");
    assert_eq!(lexer.take_metadata(), Vec::<Token>::new());
    assert_eq!(lexer.tokens, vec![number(1), Token::Operator('='), name("x")]);

    let mut lexer = Lexer::new("a : b : c");
    assert_eq!(
        lexer.take_metadata(),
        vec![Token::Operator(':'), name("b"), Token::Operator(':'), name("c")]
    );
    assert_eq!(lexer.tokens, vec![name("a")]);
}

#[test]
fn scan_reads_characters_like_new_reads_text() {
    let line: Vec<char> = "dv/dt = 4 * 5 : volt".chars().collect();
    assert_eq!(Lexer::scan(&line).tokens, Lexer::new("dv/dt = 4 * 5 : volt").tokens);
}
