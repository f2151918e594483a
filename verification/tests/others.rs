use rush::env::Env;
use rush::eval::EvalError;
use rush::parser::SyntaxError;
use rush::report::render_value;
use rush::text::{num_to_string, parse_literal, str_eq};
use rush::trie::{Node, Trie};
use rush::value::{Kind, Val};

#[test]
fn numerals() {
    assert_eq!(num_to_string(0), "0");
    assert_eq!(num_to_string(7), "7");
    assert_eq!(num_to_string(10), "10");
    assert_eq!(num_to_string(-1), "-1");
    assert_eq!(num_to_string(1234567890), "1234567890");
    assert_eq!(num_to_string(i64::MAX), "9223372036854775807");
    assert_eq!(num_to_string(i64::MIN), "-9223372036854775808");
}

#[test]
fn numerals_read_back() {
    for n in [0, 1, -1, 9, 10, -10, 99, 100, 12345, -98765, i64::MAX, i64::MIN, i64::MIN + 1] {
        assert_eq!(parse_literal(&num_to_string(n)), Some(n));
        assert_eq!(num_to_string(n), n.to_string());
    }
}

#[test]
fn literals() {
    assert_eq!(parse_literal("0"), Some(0));
    assert_eq!(parse_literal("-0"), Some(0));
    assert_eq!(parse_literal("0042"), Some(42));
    assert_eq!(parse_literal("-7"), Some(-7));
    assert_eq!(parse_literal("9223372036854775807"), Some(i64::MAX));
    assert_eq!(parse_literal("9223372036854775808"), None);
    assert_eq!(parse_literal("-9223372036854775808"), Some(i64::MIN));
    assert_eq!(parse_literal("-9223372036854775809"), None);
    assert_eq!(parse_literal("123456789012345678901234567890123456789012345"), None);
    assert_eq!(parse_literal("00000000000000000000000000000000000000000001"), Some(1));
    assert_eq!(parse_literal(""), None);
    assert_eq!(parse_literal("-"), None);
    assert_eq!(parse_literal("+1"), None);
    assert_eq!(parse_literal("1-"), None);
    assert_eq!(parse_literal("--1"), None);
    assert_eq!(parse_literal("1 "), None);
    assert_eq!(parse_literal("a1"), None);
    assert_eq!(parse_literal("1a"), None);
    assert_eq!(parse_literal("١٢"), None);
}

#[test]
fn text_equality() {
    assert!(str_eq("", ""));
    assert!(str_eq("if", "if"));
    assert!(!str_eq("if", "iff"));
    assert!(!str_eq("if", "of"));
    assert!(str_eq("héllo", "héllo"));
    assert!(!str_eq("héllo", "hello"));
}

#[test]
fn value_kinds() {
    assert_eq!(Val::Num(1).kind(), Kind::Num);
    assert_eq!(Val::Bool(true).kind(), Kind::Bool);
    assert_eq!(Val::Sym("s".to_string()).kind(), Kind::Sym);
    assert_eq!(Val::Nil.kind(), Kind::Nil);
}

#[test]
fn value_clone() {
    for v in [Val::Num(-3), Val::Bool(false), Val::Sym("text".to_string()), Val::Nil] {
        assert_eq!(v.clone(), v);
    }
}

#[test]
fn values_are_shown_with_their_kind() {
    assert_eq!(render_value(&Val::Num(7)), "7 : Num");
    assert_eq!(render_value(&Val::Num(-7)), "-7 : Num");
    assert_eq!(render_value(&Val::Bool(true)), "true : Bool");
    assert_eq!(render_value(&Val::Bool(false)), "false : Bool");
    assert_eq!(render_value(&Val::Sym("out".to_string())), "out : Sym");
    assert_eq!(render_value(&Val::Nil), "nil : Nil");
}

#[test]
fn syntax_errors_in_words() {
    assert_eq!(SyntaxError::Pattern.message(), "the tokenizer could not be set up");
    assert_eq!(
        SyntaxError::UnexpectedEnd.message(),
        "expected unary operator or primary token"
    );
    assert_eq!(
        SyntaxError::ExpectedPrimary("+".to_string()).message(),
        "expected primary token, got +"
    );
    assert_eq!(SyntaxError::MissingClosingParen.message(), "missing closing parenthesis");
    assert_eq!(SyntaxError::MissingClosingBracket.message(), "expected closing bracket");
    assert_eq!(SyntaxError::MissingThen.message(), "expected token 'then'");
    assert_eq!(SyntaxError::MissingElse.message(), "expected token 'else'");
    assert_eq!(SyntaxError::UnknownToken("x".to_string()).message(), "unknown token x");
    assert_eq!(
        SyntaxError::MissingClosingParen.report(),
        "syntax error: missing closing parenthesis"
    );
}

#[test]
fn eval_errors_in_words() {
    assert_eq!(
        EvalError::ExpectedKind { expected: Kind::Num, actual: Kind::Bool }.message(),
        "expected num, got bool"
    );
    assert_eq!(
        EvalError::ExpectedKind { expected: Kind::Bool, actual: Kind::Sym }.message(),
        "expected bool, got sym"
    );
    assert_eq!(
        EvalError::ExpectedKind { expected: Kind::Num, actual: Kind::Nil }.message(),
        "expected num, got nil"
    );
    assert_eq!(EvalError::DivideByZero.message(), "divide by zero");
    assert_eq!(EvalError::Overflow.message(), "arithmetic overflow");
    assert_eq!(EvalError::LaunchFailed.message(), "the command could not be launched");
    assert_eq!(
        EvalError::DivideByZero.report(),
        "error evaluating expression: divide by zero"
    );
}

#[test]
fn environment() {
    let mut env = Env::new();
    assert_eq!(env.lookup("x"), None);
    env.bind("x".to_string(), Val::Num(1));
    env.bind("y".to_string(), Val::Bool(true));
    assert_eq!(env.lookup("x"), Some(Val::Num(1)));
    assert_eq!(env.lookup("y"), Some(Val::Bool(true)));
    assert_eq!(env.lookup("z"), None);
    env.bind("x".to_string(), Val::Sym("again".to_string()));
    assert_eq!(env.lookup("x"), Some(Val::Sym("again".to_string())));
    assert_eq!(env.lookup("y"), Some(Val::Bool(true)));
    assert_eq!(env.lookup(""), None);
}

#[test]
fn trie_holds_what_was_inserted() {
    let mut trie = Trie::new();
    assert!(!trie.contains("cat"));
    trie.insert("cat");
    assert!(trie.contains("cat"));
    assert!(!trie.contains("ca"));
    assert!(!trie.contains("cats"));
    assert!(!trie.contains("c"));
    trie.insert("ca");
    trie.insert("dog");
    assert!(trie.contains("ca"));
    assert!(trie.contains("cat"));
    assert!(trie.contains("dog"));
    assert!(!trie.contains("do"));
    trie.insert("cat");
    assert!(trie.contains("cat"));
}

#[test]
fn trie_ignores_the_empty_word() {
    let mut trie = Trie::new();
    trie.insert("");
    assert!(!trie.contains(""));
    trie.insert("a");
    assert!(trie.contains("a"));
    assert!(!trie.contains(""));
}

#[test]
fn trie_holds_no_word_with_other_characters() {
    let mut trie = Trie::new();
    trie.insert("abc");
    assert!(!trie.contains("aBc"));
    assert!(!trie.contains("ab c"));
    assert!(!trie.contains("äbc"));
    assert!(!trie.contains("{"));
    assert!(!trie.contains("`"));
}

#[test]
fn trie_inserting_a_longer_word_keeps_the_shorter() {
    let mut trie = Trie::new();
    trie.insert("a");
    trie.insert("ab");
    trie.insert("abz");
    assert!(trie.contains("a"));
    assert!(trie.contains("ab"));
    assert!(trie.contains("abz"));
    assert!(!trie.contains("az"));
}

#[test]
fn node_holds_the_words_below_it() {
    let mut node = Node::new('c', false);
    assert!(!node.contains(""));
    assert!(!node.contains("at"));
    node.insert("at");
    assert!(node.contains("at"));
    assert!(!node.contains("a"));
    node.insert("");
    assert!(node.contains(""));
    let end = Node::new('t', true);
    assert!(end.contains(""));
    assert!(!end.contains("t"));
}
