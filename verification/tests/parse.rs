use rush::ast::{BinaryOp, Exp, UnaryOp};
use rush::lexer::{split_segments, tokenize, tokens_from_pieces};
use rush::parser::{
    boolop, comparison, equality, expr, factor, parse, parse_line, parse_segment, parse_tokens,
    primary, term, toplevel, unary, SyntaxError, Tokens,
};
use rush::token::{Token, TokenKind};
use rush::value::Val;

fn num(n: i64) -> Exp {
    Exp::Literal(Val::Num(n))
}

fn truth(b: bool) -> Exp {
    Exp::Literal(Val::Bool(b))
}

fn sym(s: &str) -> Exp {
    Exp::Literal(Val::Sym(s.to_string()))
}

fn bin(l: Exp, op: BinaryOp, r: Exp) -> Exp {
    Exp::Binary(Box::new(l), op, Box::new(r))
}

fn neg(e: Exp) -> Exp {
    Exp::Unary(UnaryOp::Negate, Box::new(e))
}

fn inv(e: Exp) -> Exp {
    Exp::Unary(UnaryOp::Inverse, Box::new(e))
}

fn cond(c: Exp, t: Exp, f: Exp) -> Exp {
    Exp::If(Box::new(c), Box::new(t), Box::new(f))
}

fn cursor(text: &str) -> Tokens {
    Tokens::new(tokenize(text).unwrap())
}

fn texts(tokens: &Vec<Token>) -> Vec<&str> {
    tokens.iter().map(|t| t.text.as_str()).collect()
}

/// Parses the text as an expression and checks that nothing is left over.
fn expression(text: &str) -> Result<Exp, SyntaxError> {
    let mut ts = cursor(text);
    let r = expr(&mut ts);
    if r.is_ok() {
        assert_eq!(ts.peek(), None);
    }
    r
}

#[test]
fn tokenize_separates_glued_operators() {
    let tokens = tokenize("-1+2*(3<=4)").unwrap();
    assert_eq!(texts(&tokens), vec!["-", "1", "+", "2", "*", "(", "3", "<=", "4", ")"]);
    assert_eq!(tokens[1].kind, TokenKind::Number(1));
    assert_eq!(tokens[7].kind, TokenKind::Lte);
}

#[test]
fn tokenize_prefers_two_character_operators() {
    let tokens = tokenize("1<=2>=3==4!=5&&6||7<8>9!x").unwrap();
    let kinds: Vec<TokenKind> = tokens.iter().map(|t| t.kind).collect();
    assert_eq!(
        kinds,
        vec![
            TokenKind::Number(1),
            TokenKind::Lte,
            TokenKind::Number(2),
            TokenKind::Gte,
            TokenKind::Number(3),
            TokenKind::EqEq,
            TokenKind::Number(4),
            TokenKind::NotEq,
            TokenKind::Number(5),
            TokenKind::And,
            TokenKind::Number(6),
            TokenKind::Or,
            TokenKind::Number(7),
            TokenKind::Lt,
            TokenKind::Number(8),
            TokenKind::Gt,
            TokenKind::Number(9),
            TokenKind::Bang,
            TokenKind::Word,
        ]
    );
}

#[test]
fn tokenize_splits_on_blanks() {
    let tokens = tokenize("  echo   hello\nthere ").unwrap();
    assert_eq!(texts(&tokens), vec!["echo", "hello", "there"]);
}

#[test]
fn tokenize_blank_text_gives_no_token() {
    assert_eq!(tokenize("").unwrap().len(), 0);
    assert_eq!(tokenize("   \n  ").unwrap().len(), 0);
}

#[test]
fn tokenize_splits_at_keywords_inside_words() {
    let tokens = tokenize("gift world").unwrap();
    assert_eq!(texts(&tokens), vec!["g", "if", "t", "w", "or", "ld"]);
    assert_eq!(tokens[1].kind, TokenKind::If);
    assert_eq!(tokens[4].kind, TokenKind::Or);
}

#[test]
fn tokenize_keeps_tabs_and_brackets_in_words() {
    let tokens = tokenize("a\tb [x]").unwrap();
    assert_eq!(texts(&tokens), vec!["a\tb", "[x]"]);
    assert_eq!(tokens[1].kind, TokenKind::Word);
}

#[test]
fn tokens_from_pieces_drops_empty_pieces() {
    let pieces = vec!["".to_string(), "if".to_string(), "".to_string(), "x".to_string()];
    let tokens = tokens_from_pieces(&pieces);
    assert_eq!(texts(&tokens), vec!["if", "x"]);
    assert_eq!(tokens[0].kind, TokenKind::If);
    assert_eq!(tokens[1].kind, TokenKind::Word);
}

#[test]
fn token_kinds_by_spelling() {
    let cases = vec![
        ("+", TokenKind::Plus),
        ("-", TokenKind::Minus),
        ("*", TokenKind::Star),
        ("/", TokenKind::Slash),
        ("%", TokenKind::Percent),
        ("<", TokenKind::Lt),
        (">", TokenKind::Gt),
        ("<=", TokenKind::Lte),
        (">=", TokenKind::Gte),
        ("==", TokenKind::EqEq),
        ("!=", TokenKind::NotEq),
        ("&&", TokenKind::And),
        ("and", TokenKind::And),
        ("||", TokenKind::Or),
        ("or", TokenKind::Or),
        ("!", TokenKind::Bang),
        ("(", TokenKind::LParen),
        (")", TokenKind::RParen),
        ("[", TokenKind::LBracket),
        ("]", TokenKind::RBracket),
        (":", TokenKind::Colon),
        ("if", TokenKind::If),
        ("then", TokenKind::Then),
        ("else", TokenKind::Else),
        ("true", TokenKind::True),
        ("false", TokenKind::False),
        ("nil", TokenKind::Nil),
        ("0", TokenKind::Number(0)),
        ("-17", TokenKind::Number(-17)),
        ("007", TokenKind::Number(7)),
        ("9223372036854775807", TokenKind::Number(i64::MAX)),
        ("-9223372036854775808", TokenKind::Number(i64::MIN)),
        ("9223372036854775808", TokenKind::Word),
        ("+5", TokenKind::Word),
        ("5x", TokenKind::Word),
        ("--5", TokenKind::Word),
        ("=", TokenKind::Word),
        ("If", TokenKind::Word),
        ("", TokenKind::Word),
    ];
    for (text, kind) in cases {
        let token = Token::new(text);
        assert_eq!(token.text, text);
        assert_eq!(token.kind, kind, "{}", text);
    }
}

#[test]
fn segments_are_split_at_semicolons() {
    assert_eq!(split_segments("a;b c;;d"), vec!["a", "b c", "", "d"]);
    assert_eq!(split_segments(""), vec![""]);
    assert_eq!(split_segments(";"), vec!["", ""]);
    assert_eq!(split_segments("no semicolon"), vec!["no semicolon"]);
}

#[test]
fn primary_reads_literals() {
    assert_eq!(primary(&mut cursor("true")), Ok(truth(true)));
    assert_eq!(primary(&mut cursor("false")), Ok(truth(false)));
    assert_eq!(primary(&mut cursor("nil")), Ok(Exp::Literal(Val::Nil)));
    assert_eq!(primary(&mut cursor("42")), Ok(num(42)));
    assert_eq!(primary(&mut Tokens::new(vec![Token::new("-42")])), Ok(num(-42)));
}

#[test]
fn primary_errors() {
    assert_eq!(primary(&mut cursor("")), Err(SyntaxError::UnexpectedEnd));
    assert_eq!(
        primary(&mut cursor("hello")),
        Err(SyntaxError::ExpectedPrimary("hello".to_string()))
    );
    assert_eq!(primary(&mut cursor("+")), Err(SyntaxError::ExpectedPrimary("+".to_string())));
    assert_eq!(primary(&mut cursor(")")), Err(SyntaxError::ExpectedPrimary(")".to_string())));
    assert_eq!(
        primary(&mut cursor("99999999999999999999")),
        Err(SyntaxError::ExpectedPrimary("99999999999999999999".to_string()))
    );
    assert_eq!(primary(&mut cursor("(1")), Err(SyntaxError::MissingClosingParen));
    assert_eq!(primary(&mut cursor("(1 2)")), Err(SyntaxError::MissingClosingParen));
    assert_eq!(primary(&mut cursor("(")), Err(SyntaxError::UnexpectedEnd));
    assert_eq!(primary(&mut cursor("()")), Err(SyntaxError::ExpectedPrimary(")".to_string())));
}

#[test]
fn a_failed_parse_leaves_the_cursor_in_place() {
    let mut ts = cursor("1 + ( 2 *");
    assert_eq!(expr(&mut ts), Err(SyntaxError::UnexpectedEnd));
    assert_eq!(ts.peek(), Some(TokenKind::Number(1)));
    assert_eq!(ts.text(), "1");
    assert_eq!(primary(&mut ts), Ok(num(1)));
    assert_eq!(ts.peek(), Some(TokenKind::Plus));
}

#[test]
fn unary_is_right_associative_and_nests() {
    assert_eq!(unary(&mut cursor("-5")), Ok(neg(num(5))));
    assert_eq!(unary(&mut cursor("--5")), Ok(neg(neg(num(5)))));
    assert_eq!(unary(&mut cursor("!-!5")), Ok(inv(neg(inv(num(5))))));
    assert_eq!(unary(&mut cursor("!!true")), Ok(inv(inv(truth(true)))));
    assert_eq!(unary(&mut cursor("-")), Err(SyntaxError::UnexpectedEnd));
    assert_eq!(unary(&mut cursor("")), Err(SyntaxError::UnexpectedEnd));
}

#[test]
fn unary_nests_deeply() {
    let mut text = String::new();
    let mut expected = num(1);
    for _ in 0..200 {
        text.push('-');
        expected = neg(expected);
    }
    text.push('1');
    assert_eq!(unary(&mut cursor(&text)), Ok(expected));
}

#[test]
fn factor_operators() {
    assert_eq!(
        factor(&mut cursor("8 / 4 * 2 % 3")),
        Ok(bin(
            bin(bin(num(8), BinaryOp::Div, num(4)), BinaryOp::Mult, num(2)),
            BinaryOp::Mod,
            num(3)
        ))
    );
    let mut ts = cursor("2 * 3 + 4");
    assert_eq!(factor(&mut ts), Ok(bin(num(2), BinaryOp::Mult, num(3))));
    assert_eq!(ts.peek(), Some(TokenKind::Plus));
}

#[test]
fn term_operators() {
    assert_eq!(
        term(&mut cursor("1 + 2 - 3")),
        Ok(bin(bin(num(1), BinaryOp::Add, num(2)), BinaryOp::Sub, num(3)))
    );
    assert_eq!(term(&mut cursor("1 +")), Err(SyntaxError::UnexpectedEnd));
    assert_eq!(term(&mut cursor("1 + *")), Err(SyntaxError::ExpectedPrimary("*".to_string())));
}

#[test]
fn boolop_operators() {
    assert_eq!(
        boolop(&mut cursor("true && false || true")),
        Ok(bin(bin(truth(true), BinaryOp::And, truth(false)), BinaryOp::Or, truth(true)))
    );
    assert_eq!(
        boolop(&mut cursor("true and false or true")),
        Ok(bin(bin(truth(true), BinaryOp::And, truth(false)), BinaryOp::Or, truth(true)))
    );
}

#[test]
fn comparison_operators() {
    assert_eq!(
        comparison(&mut cursor("1 < 2 > 3 <= 4 >= 5")),
        Ok(bin(
            bin(
                bin(bin(num(1), BinaryOp::Lt, num(2)), BinaryOp::Gt, num(3)),
                BinaryOp::Lte,
                num(4)
            ),
            BinaryOp::Gte,
            num(5)
        ))
    );
}

#[test]
fn equality_operators() {
    assert_eq!(
        equality(&mut cursor("1 == 2 != 3")),
        Ok(bin(bin(num(1), BinaryOp::Eq, num(2)), BinaryOp::Neq, num(3)))
    );
}

#[test]
fn binding_levels_from_loosest_to_tightest() {
    // equality < comparison < boolop < term < factor < unary
    assert_eq!(
        expression("1 == 2 < 3 && 4 + 5 * -6"),
        Ok(bin(
            num(1),
            BinaryOp::Eq,
            bin(
                num(2),
                BinaryOp::Lt,
                bin(
                    num(3),
                    BinaryOp::And,
                    bin(num(4), BinaryOp::Add, bin(num(5), BinaryOp::Mult, neg(num(6))))
                )
            )
        ))
    );
}

#[test]
fn precedence_of_product_over_sum() {
    assert_eq!(
        expression("1 + 2 * 3"),
        Ok(bin(num(1), BinaryOp::Add, bin(num(2), BinaryOp::Mult, num(3))))
    );
    assert_eq!(
        expression("(1 + 2) * 3"),
        Ok(bin(bin(num(1), BinaryOp::Add, num(2)), BinaryOp::Mult, num(3)))
    );
}

#[test]
fn subtraction_associates_to_the_left() {
    assert_eq!(
        expression("10 - 4 - 3"),
        Ok(bin(bin(num(10), BinaryOp::Sub, num(4)), BinaryOp::Sub, num(3)))
    );
}

#[test]
fn nested_parentheses() {
    assert_eq!(expression("(((5)))"), Ok(num(5)));
    assert_eq!(expression("((1) + (2))"), Ok(bin(num(1), BinaryOp::Add, num(2))));
}

#[test]
fn if_expression() {
    assert_eq!(
        expression("if 1 < 2 then 3 else 4"),
        Ok(cond(bin(num(1), BinaryOp::Lt, num(2)), num(3), num(4)))
    );
    assert_eq!(
        expression("if true then if false then 1 else 2 else 3"),
        Ok(cond(truth(true), cond(truth(false), num(1), num(2)), num(3)))
    );
}

#[test]
fn if_needs_its_keywords() {
    assert_eq!(expression("if true 1 else 2"), Err(SyntaxError::MissingThen));
    assert_eq!(expression("if true"), Err(SyntaxError::MissingThen));
    assert_eq!(expression("if true then 1"), Err(SyntaxError::MissingElse));
    assert_eq!(expression("if true then 1 2"), Err(SyntaxError::MissingElse));
    assert_eq!(expression("if"), Err(SyntaxError::UnexpectedEnd));
    assert_eq!(expression("if true then"), Err(SyntaxError::UnexpectedEnd));
    assert_eq!(expression("if true then 1 else"), Err(SyntaxError::UnexpectedEnd));
}

#[test]
fn expr_of_nothing_is_an_error() {
    assert_eq!(expression(""), Err(SyntaxError::UnexpectedEnd));
}

#[test]
fn toplevel_of_nothing_is_empty() {
    let mut ts = cursor("");
    assert_eq!(toplevel(&mut ts), Ok(Exp::Empty));
    assert_eq!(parse_tokens(Vec::new()), Ok(Exp::Empty));
    assert_eq!(parse_segment("   "), Ok(Exp::Empty));
}

#[test]
fn toplevel_starts_an_expression_at_four_tokens() {
    assert_eq!(parse_segment("if true then 1 else 2"), Ok(cond(truth(true), num(1), num(2))));
    assert_eq!(parse_segment("!5"), Ok(inv(num(5))));
    assert_eq!(parse_segment("-5 + 1"), Ok(bin(neg(num(5)), BinaryOp::Add, num(1))));
    assert_eq!(parse_segment(": 1"), Err(SyntaxError::ExpectedPrimary(":".to_string())));
}

#[test]
fn command_fallback() {
    assert_eq!(
        parse_segment("echo hello"),
        Ok(Exp::Command("echo".to_string(), vec![sym("hello")]))
    );
    assert_eq!(parse_segment("ls"), Ok(Exp::Command("ls".to_string(), vec![])));
}

#[test]
fn a_line_that_starts_with_a_number_is_a_command() {
    assert_eq!(
        parse_segment("1 + 2"),
        Ok(Exp::Command("1".to_string(), vec![sym("+"), sym("2")]))
    );
    assert_eq!(
        parse_segment("(5)"),
        Ok(Exp::Command("(".to_string(), vec![sym("5"), sym(")")]))
    );
}

#[test]
fn command_arguments_in_brackets_are_expressions() {
    assert_eq!(
        parse_segment("echo [ 1 + 2 ] x [ -3 ]"),
        Ok(Exp::Command(
            "echo".to_string(),
            vec![bin(num(1), BinaryOp::Add, num(2)), sym("x"), neg(num(3))]
        ))
    );
    assert_eq!(
        parse_segment("echo ] x"),
        Ok(Exp::Command("echo".to_string(), vec![sym("]"), sym("x")]))
    );
}

#[test]
fn command_bracket_errors() {
    assert_eq!(parse_segment("echo [ 1 + 2"), Err(SyntaxError::MissingClosingBracket));
    assert_eq!(parse_segment("echo [ 1 2 ]"), Err(SyntaxError::MissingClosingBracket));
    assert_eq!(parse_segment("echo [ ]"), Err(SyntaxError::ExpectedPrimary("]".to_string())));
    assert_eq!(parse_segment("echo ["), Err(SyntaxError::UnexpectedEnd));
}

#[test]
fn leftover_tokens_are_an_error() {
    assert_eq!(parse_segment("-1 2"), Err(SyntaxError::UnknownToken("2".to_string())));
    assert_eq!(parse_segment("-(1))"), Err(SyntaxError::UnknownToken(")".to_string())));
    let mut ts = cursor("-1 2");
    assert_eq!(parse_line(&mut ts), Err(SyntaxError::UnknownToken("2".to_string())));
    assert_eq!(ts.peek(), Some(TokenKind::Minus));
}

#[test]
fn parse_gives_one_result_for_each_segment() {
    let r = parse("-1; echo hi ;; !2");
    assert_eq!(
        r,
        vec![
            Ok(neg(num(1))),
            Ok(Exp::Command("echo".to_string(), vec![sym("hi")])),
            Ok(Exp::Empty),
            Ok(inv(num(2))),
        ]
    );
    assert_eq!(parse(""), vec![Ok(Exp::Empty)]);
}

#[test]
fn segment_isolation() {
    let r = parse("-1 + ; -2 + 7");
    assert_eq!(r.len(), 2);
    assert_eq!(r[0], Err(SyntaxError::UnexpectedEnd));
    assert_eq!(r[1], Ok(bin(neg(num(2)), BinaryOp::Add, num(7))));
    let alone = parse("-2 + 7");
    assert_eq!(alone.len(), 1);
    assert_eq!(alone[0], r[1]);
}

#[test]
fn segments_that_start_with_a_number_are_commands() {
    let r = parse("1 + ; 2 + 3");
    assert_eq!(
        r,
        vec![
            Ok(Exp::Command("1".to_string(), vec![sym("+")])),
            Ok(Exp::Command("2".to_string(), vec![sym("+"), sym("3")])),
        ]
    );
}
