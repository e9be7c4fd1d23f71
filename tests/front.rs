use lox_front::render_source;
use lox_front::{Error, Expected, Expr, Parser, PrettyPrinter, Scanner, Token, Visitor};

fn num(s: &str) -> Token {
    Token::Number(s.to_string())
}

fn lit(t: Token) -> Box<Expr> {
    Box::new(Expr::Literal(t))
}

fn scan(text: &str) -> Result<Vec<Token>, Error> {
    Scanner::new(text.to_string()).read_tokens()
}

fn parse(tokens: Vec<Token>) -> Result<Expr, Error> {
    Parser::new(tokens).parse()
}

#[test]
fn test_parse() {
    let tokens = vec![num("6"), Token::Slash, num("3"), Token::Minus, num("1"), Token::Eof];
    let expr = parse(tokens).unwrap();
    let expected = Expr::Binary(
        Box::new(Expr::Binary(lit(num("6")), Token::Slash, lit(num("3")))),
        Token::Minus,
        lit(num("1")),
    );
    assert_eq!(expr, expected);
    println!("{expr:?}");
}

#[test]
fn test_pretty_print() {
    let expr = Expr::Binary(
        Box::new(Expr::Unary(Token::Minus, lit(num("123")))),
        Token::Star,
        Box::new(Expr::Grouping(lit(num("45.67")))),
    );
    let printer = PrettyPrinter;
    assert_eq!(printer.visit_expr(&expr), format!("(* (- 123) (group 45.67))"));
}

#[test]
fn scan_division_and_subtraction() {
    let tokens = scan("6/3-1").unwrap();
    assert_eq!(tokens, vec![num("6"), Token::Slash, num("3"), Token::Minus, num("1"), Token::Eof]);
}

#[test]
fn parse_scanned_division_binds_tighter() {
    let expr = parse(scan("6/3-1").unwrap()).unwrap();
    assert_eq!(PrettyPrinter.render(&expr), "(- (/ 6 3) 1)");
}

#[test]
fn subtraction_folds_to_the_left() {
    let expr = parse(scan("1 - 2 - 3").unwrap()).unwrap();
    let expected = Expr::Binary(
        Box::new(Expr::Binary(lit(num("1")), Token::Minus, lit(num("2")))),
        Token::Minus,
        lit(num("3")),
    );
    assert_eq!(expr, expected);
}

#[test]
fn comment_is_elided() {
    assert_eq!(scan("// comment\n42").unwrap(), vec![num("42"), Token::Eof]);
}

#[test]
fn unterminated_string_fails() {
    let err = scan("\"abc").unwrap_err();
    assert_eq!(
        err,
        Error::InterpretErrorWithIndex {
            line_index: 1,
            line_string: "\"abc".to_string(),
            message: "Unterminated string".to_string(),
        }
    );
}

#[test]
fn unterminated_string_counts_its_lines() {
    let err = scan("\n\"a\nb").unwrap_err();
    assert!(matches!(err, Error::InterpretErrorWithIndex { line_index: 3, .. }));
}

#[test]
fn scanning_twice_gives_the_same_tokens() {
    let text = "var x = (1 + 2.50) * \"s\" >= y; // tail";
    assert_eq!(scan(text).unwrap(), scan(text).unwrap());
}

#[test]
fn rendering_twice_gives_the_same_text() {
    let text = "-(1 + 2) * 3 == !true";
    let a = render_source(text.to_string()).unwrap();
    let b = render_source(text.to_string()).unwrap();
    assert_eq!(a, b);
    assert_eq!(a, "(== (* (- (group (+ 1 2))) 3) (! true))");
}

#[test]
fn operator_text_gives_one_token_per_lexeme() {
    let tokens = scan("(){},.-+;*!!=<<=>>====/").unwrap();
    assert_eq!(
        tokens,
        vec![
            Token::LeftParen,
            Token::RightParen,
            Token::LeftBrace,
            Token::RightBrace,
            Token::Comma,
            Token::Dot,
            Token::Minus,
            Token::Plus,
            Token::Semicolon,
            Token::Star,
            Token::Not,
            Token::Ne,
            Token::Lt,
            Token::Le,
            Token::Gt,
            Token::Ge,
            Token::EqEq,
            Token::Eq,
            Token::Slash,
            Token::Eof,
        ]
    );
}

#[test]
fn empty_text_is_just_eof() {
    assert_eq!(scan("").unwrap(), vec![Token::Eof]);
    assert_eq!(scan(" \t\r\n").unwrap(), vec![Token::Eof]);
}

#[test]
fn unexpected_character_is_reported_with_its_line() {
    let err = scan("1\n@").unwrap_err();
    assert_eq!(
        err,
        Error::InterpretErrorWithIndex {
            line_index: 2,
            line_string: "1\n@".to_string(),
            message: "Unexpected character '@'".to_string(),
        }
    );
}

#[test]
fn non_ascii_character_is_unexpected() {
    let err = scan("é").unwrap_err();
    assert!(matches!(err, Error::InterpretErrorWithIndex { ref message, .. } if message == "Unexpected character 'é'"));
}

#[test]
fn numbers_are_held_in_canonical_form() {
    assert_eq!(scan("007.50").unwrap(), vec![num("7.5"), Token::Eof]);
    assert_eq!(scan("0.0").unwrap(), vec![num("0"), Token::Eof]);
    assert_eq!(scan("1.").unwrap(), vec![num("1"), Token::Dot, Token::Eof]);
    assert_eq!(scan("3.14").unwrap(), vec![num("3.14"), Token::Eof]);
}

#[test]
fn words_and_keywords() {
    let tokens = scan("and class else false for fun if nil or print return super this true var while whiles _x1").unwrap();
    assert_eq!(
        tokens,
        vec![
            Token::And,
            Token::Class,
            Token::Else,
            Token::False,
            Token::For,
            Token::Fun,
            Token::If,
            Token::Nil,
            Token::Or,
            Token::Print,
            Token::Return,
            Token::Super,
            Token::This,
            Token::True,
            Token::Var,
            Token::While,
            Token::Ident("whiles".to_string()),
            Token::Ident("_x1".to_string()),
            Token::Eof,
        ]
    );
}

#[test]
fn string_literal_keeps_its_contents() {
    assert_eq!(scan("\"a b\nc\"").unwrap(), vec![Token::String("a b\nc".to_string()), Token::Eof]);
    assert_eq!(render_source("\"hi\" + nil".to_string()).unwrap(), "(+ hi nil)");
}

#[test]
fn missing_closing_parenthesis() {
    let err = parse(scan("(1 + 2").unwrap()).unwrap_err();
    assert_eq!(err, Error::Syntax { position: 4, token: Token::Eof, expected: Expected::ClosingParen });
}

#[test]
fn missing_operand() {
    let err = parse(scan("1 +").unwrap()).unwrap_err();
    assert_eq!(err, Error::Syntax { position: 2, token: Token::Eof, expected: Expected::Expression });
    let err = parse(scan("var").unwrap()).unwrap_err();
    assert_eq!(err, Error::Syntax { position: 0, token: Token::Var, expected: Expected::Expression });
}

#[test]
fn trailing_tokens_are_refused() {
    let err = parse(scan("1 2").unwrap()).unwrap_err();
    assert_eq!(err, Error::Syntax { position: 1, token: num("2"), expected: Expected::EndOfInput });
}

#[test]
fn parse_without_eof_token() {
    let expr = parse(vec![num("5")]).unwrap();
    assert_eq!(expr, Expr::Literal(num("5")));
    let err = parse(vec![]).unwrap_err();
    assert_eq!(err, Error::Syntax { position: 0, token: Token::Eof, expected: Expected::Expression });
}

#[test]
fn precedence_ladder() {
    let text = "1 + 2 * 3 < 4 != 5 >= -6";
    assert_eq!(render_source(text.to_string()).unwrap(), "(!= (< (+ 1 (* 2 3)) 4) (>= 5 (- 6)))");
    assert_eq!(render_source("!!false".to_string()).unwrap(), "(! (! false))");
}

#[test]
fn error_constructors() {
    assert_eq!(
        Error::message("x", "m"),
        Error::InterpretError { line_string: "x".to_string(), message: "m".to_string() }
    );
    assert_eq!(
        Error::message_with_line_index(7, "x", "m"),
        Error::InterpretErrorWithIndex { line_index: 7, line_string: "x".to_string(), message: "m".to_string() }
    );
}

#[test]
fn token_spelling_and_duplicate() {
    assert_eq!(Token::Le.spelling(), "<=");
    assert_eq!(num("2.5").duplicate(), num("2.5"));
    assert_eq!(lox_front::token::keyword(&"while".to_string()), Some(Token::While));
    assert_eq!(lox_front::token::keyword(&"whale".to_string()), None);
}

#[test]
fn operator_text_with_blank_space_between() {
    let tokens = scan("( ) ==\n! = \t/ /\r< =").unwrap();
    assert_eq!(
        tokens,
        vec![
            Token::LeftParen,
            Token::RightParen,
            Token::EqEq,
            Token::Not,
            Token::Eq,
            Token::Slash,
            Token::Slash,
            Token::Lt,
            Token::Eq,
            Token::Eof,
        ]
    );
}

#[test]
fn repeated_unexpected_character_fails_at_the_first() {
    let err = scan("a\n\n@@").unwrap_err();
    assert!(matches!(
        err,
        Error::InterpretErrorWithIndex { line_index: 3, ref message, .. } if message == "Unexpected character '@'"
    ));
}

#[test]
fn blank_space_is_skipped_between_tokens() {
    assert_eq!(scan(" 1\t+\r2 ").unwrap(), vec![num("1"), Token::Plus, num("2"), Token::Eof]);
}

#[test]
fn comment_runs_to_the_end_of_its_line_only() {
    assert_eq!(scan("1 // 2 + 3\n/ 4").unwrap(), vec![num("1"), Token::Slash, num("4"), Token::Eof]);
}
