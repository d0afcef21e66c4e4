use apply_macro::apply;
use apply_macro::tokens::{Delim, Spacing, Token};

fn ident(s: &str) -> Token {
    Token::Ident(s.to_string())
}

fn joint(c: char) -> Token {
    Token::Punct(c, Spacing::Joint)
}

fn alone(c: char) -> Token {
    Token::Punct(c, Spacing::Alone)
}

fn comma() -> Token {
    alone(',')
}

fn paren(ts: Vec<Token>) -> Token {
    Token::Group(Delim::Paren, ts)
}

fn bracket(ts: Vec<Token>) -> Token {
    Token::Group(Delim::Bracket, ts)
}

fn brace(ts: Vec<Token>) -> Token {
    Token::Group(Delim::Brace, ts)
}

/// `rule ! { body }`, as the rewriter emits it.
fn invocation(rule: Vec<Token>, body: Vec<Token>) -> Vec<Token> {
    let mut out = rule;
    out.push(joint('!'));
    out.push(brace(body));
    out
}

/// The synthesized marker `#[::apply_macro::apply(rest)]`.
fn marker(rest: Vec<Token>) -> Vec<Token> {
    vec![
        joint('#'),
        bracket(vec![
            joint(':'),
            joint(':'),
            ident("apply_macro"),
            joint(':'),
            joint(':'),
            ident("apply"),
            paren(rest),
        ]),
    ]
}

/// `#[derive(Name)]`, as a wrapping rule would emit it.
fn derive_attr(name: &str) -> Vec<Token> {
    vec![alone('#'), bracket(vec![ident("derive"), paren(vec![ident(name)])])]
}

/// The tokens of `struct Num(i32);`.
fn struct_num() -> Vec<Token> {
    vec![ident("struct"), ident("Num"), paren(vec![ident("i32")]), alone(';')]
}

/// Splits `rule ! { body }` into the rule's name tokens and the body tokens.
fn split_invocation(mut v: Vec<Token>) -> (Vec<Token>, Vec<Token>) {
    let last = v.pop().expect("invocation ends with a brace group");
    let body = match last {
        Token::Group(Delim::Brace, ts) => ts,
        other => panic!("expected a brace group, got {:?}", other),
    };
    match v.pop() {
        Some(Token::Punct('!', _)) => {}
        other => panic!("expected `!`, got {:?}", other),
    }
    (v, body)
}

/// Takes a leading `#[::apply_macro::apply(rest)]` marker off `body` and
/// hands `rest` and the tokens after the marker back.
fn split_marker(body: Vec<Token>) -> (Vec<Token>, Vec<Token>) {
    let mut it = body.into_iter();
    match it.next() {
        Some(Token::Punct('#', _)) => {}
        other => panic!("expected `#`, got {:?}", other),
    }
    let inner = match it.next() {
        Some(Token::Group(Delim::Bracket, ts)) => ts,
        other => panic!("expected a bracket group, got {:?}", other),
    };
    let rest = match inner.into_iter().last() {
        Some(Token::Group(Delim::Paren, ts)) => ts,
        other => panic!("expected a parenthesis group, got {:?}", other),
    };
    (rest, it.collect())
}

/// Runs the host's expansion to the end for rules that wrap the item in one
/// `#[derive(..)]` attribute each, forwarding any pending marker unchanged:
/// invokes the leading rule, re-enters the rewriter on each marker.
fn expand_wrapping_rules(mut current: Vec<Token>, derive_of_rule: &[(&str, &str)]) -> Vec<Token> {
    loop {
        let (rule, body) = split_invocation(current);
        assert_eq!(rule.len(), 1, "rule references in this scenario are single identifiers");
        let rule_name = match &rule[0] {
            Token::Ident(s) => s.clone(),
            other => panic!("expected an identifier, got {:?}", other),
        };
        let derive = derive_of_rule
            .iter()
            .find(|(r, _)| *r == rule_name)
            .map(|(_, d)| *d)
            .expect("unknown rule");
        if body.first().map(|t| t == &joint('#')).unwrap_or(false) {
            // The rule receives `#[marker] item`: it forwards the marker and
            // wraps the item, and the host then re-enters the rewriter.
            let (args, item) = split_marker(body);
            let mut wrapped = derive_attr(derive);
            wrapped.extend(item);
            current = apply(args, wrapped);
        } else {
            // The rule receives the item alone: the chain ends here.
            let mut wrapped = derive_attr(derive);
            wrapped.extend(body);
            return wrapped;
        }
    }
}

#[test]
fn no_std() {
    let result = apply(vec![ident("common_derive")], struct_num());
    assert_eq!(result, invocation(vec![ident("common_derive")], struct_num()));
    assert_ne!(result, struct_num());
}

// `Token` carries no `Clone`; tests rebuild equal values instead.
fn rebuild(t: &Token) -> Token {
    match t {
        Token::Ident(s) => Token::Ident(s.clone()),
        Token::Lit(s) => Token::Lit(s.clone()),
        Token::Punct(c, sp) => Token::Punct(*c, *sp),
        Token::Group(d, ts) => Token::Group(*d, rebuild_all(ts)),
    }
}

fn rebuild_all(ts: &[Token]) -> Vec<Token> {
    ts.iter().map(rebuild).collect()
}

#[test]
fn empty_args_keep_item_untouched() {
    let item = vec![ident("struct"), ident("Oops"), alone(';')];
    assert_eq!(apply(vec![], rebuild_all(&item)), item);
}

#[test]
fn empty_args_empty_item() {
    assert_eq!(apply(vec![], vec![]), vec![]);
}

#[test]
fn single_rule_direct_invocation() {
    let expected = invocation(vec![ident("m")], struct_num());
    assert_eq!(apply(vec![ident("m")], struct_num()), expected);
}

#[test]
fn item_with_literal_forwarded_verbatim() {
    let item = vec![
        ident("const"),
        ident("ANSWER"),
        alone(':'),
        ident("i32"),
        alone('='),
        Token::Lit("42".to_string()),
        alone(';'),
    ];
    let result = apply(vec![ident("m")], rebuild_all(&item));
    assert_eq!(result, invocation(vec![ident("m")], item));
}

#[test]
fn single_rule_empty_item() {
    assert_eq!(apply(vec![ident("m")], vec![]), invocation(vec![ident("m")], vec![]));
}

#[test]
fn single_rule_trailing_comma_is_insignificant() {
    let with = apply(vec![ident("m"), comma()], struct_num());
    let without = apply(vec![ident("m")], struct_num());
    assert_eq!(with, without);
}

#[test]
fn multi_token_rule_path_kept_whole() {
    let rule = vec![ident("some_crate"), joint(':'), joint(':'), ident("m")];
    let result = apply(rebuild_all(&rule), struct_num());
    assert_eq!(result, invocation(rule, struct_num()));
}

#[test]
fn two_rules_wrap_with_marker() {
    let result = apply(vec![ident("a"), comma(), ident("b")], struct_num());
    let mut body = marker(vec![ident("b")]);
    body.extend(struct_num());
    assert_eq!(result, invocation(vec![ident("a")], body));
}

#[test]
fn marker_reenters_with_one_rule_fewer() {
    // One unfolding of the synthesized marker reproduces the same pattern:
    // the rewriter runs again on exactly the remaining list and the item.
    let result = apply(vec![ident("a"), comma(), ident("b")], struct_num());
    let (rule, body) = split_invocation(result);
    assert_eq!(rule, vec![ident("a")]);
    let (args, item) = split_marker(body);
    assert_eq!(args, vec![ident("b")]);
    assert_eq!(item, struct_num());
    let unfolded = apply(args, item);
    assert_eq!(unfolded, invocation(vec![ident("b")], struct_num()));
}

#[test]
fn nested_commas_are_no_separators() {
    let rule = vec![ident("weird"), paren(vec![ident("a"), comma(), ident("b")])];
    let result = apply(rebuild_all(&rule), struct_num());
    assert_eq!(result, invocation(rule, struct_num()));
}

#[test]
fn trailing_comma_after_last_rule_same_expansion() {
    let rules = &[("a", "Debug"), ("b", "PartialEq")];
    let with = apply(vec![ident("a"), comma(), ident("b"), comma()], struct_num());
    let without = apply(vec![ident("a"), comma(), ident("b")], struct_num());
    assert_eq!(
        expand_wrapping_rules(with, rules),
        expand_wrapping_rules(without, rules),
    );
}

#[test]
fn comma_only_args_invoke_nothing() {
    // A lone comma leaves an empty rule reference: the item is wrapped in a
    // bare `! { ... }` invocation, exactly as scanned.
    assert_eq!(apply(vec![comma()], struct_num()), invocation(vec![], struct_num()));
}

#[test]
fn two_wrapping_rules_apply_left_to_right() {
    let rules = &[("add_debug", "Debug"), ("add_eq", "PartialEq")];
    let result = apply(vec![ident("add_debug"), comma(), ident("add_eq")], struct_num());
    let expanded = expand_wrapping_rules(result, rules);
    // Both derives end up on the declaration, whichever is lexically
    // innermost.
    let mut debug_then_eq = derive_attr("Debug");
    debug_then_eq.extend(derive_attr("PartialEq"));
    debug_then_eq.extend(struct_num());
    let mut eq_then_debug = derive_attr("PartialEq");
    eq_then_debug.extend(derive_attr("Debug"));
    eq_then_debug.extend(struct_num());
    assert!(expanded == debug_then_eq || expanded == eq_then_debug);
}
