//! The invocation rewriter: one ordered list of rule references plus one
//! item becomes a single nested macro invocation.

use vstd::prelude::*;

use crate::tokens::{Delim, Spacing, Tok, Token, tok_view, toks_view, lemma_toks_view};
use vstd::string::StringExecFns;

verus! {

broadcast use vstd::std_specs::vec::group_vec_axioms, vstd::seq::group_seq_axioms,
    lemma_toks_view;

/// A separator between two rule references: a comma atom, whatever its
/// spacing. A comma inside a group is part of that single group token and is
/// never seen by the scan.
pub open spec fn is_sep(t: Tok) -> bool {
    match t {
        Tok::Punct(c, _) => c == ',',
        _ => false,
    }
}

/// The tokens of the first rule reference: everything before the first
/// top-level comma (the whole list when there is none).
pub open spec fn leading_rule(args: Seq<Tok>) -> Seq<Tok>
    decreases args.len(),
{
    if args.len() == 0 {
        Seq::empty()
    } else if is_sep(args[0]) {
        Seq::empty()
    } else {
        seq![args[0]] + leading_rule(args.skip(1))
    }
}

/// Everything after the first top-level comma (empty when there is none, and
/// when nothing follows it).
pub open spec fn trailing_args(args: Seq<Tok>) -> Seq<Tok>
    decreases args.len(),
{
    if args.len() == 0 {
        Seq::empty()
    } else if is_sep(args[0]) {
        args.skip(1)
    } else {
        trailing_args(args.skip(1))
    }
}

/// The `!` that turns a rule reference into a function-like invocation.
pub open spec fn bang() -> Tok {
    Tok::Punct('!', Spacing::Joint)
}

/// The path through which the synthesized marker re-enters this rewriter:
/// `::apply_macro::apply`.
pub open spec fn marker_path() -> Seq<Tok> {
    seq![
        Tok::Punct(':', Spacing::Joint),
        Tok::Punct(':', Spacing::Joint),
        Tok::Ident("apply_macro"@),
        Tok::Punct(':', Spacing::Joint),
        Tok::Punct(':', Spacing::Joint),
        Tok::Ident("apply"@),
    ]
}

/// The synthesized pending-attribute marker `#[::apply_macro::apply(rest)]`:
/// when the host's expansion reaches it, the rewriter runs again on the
/// remaining rule references.
pub open spec fn marker(rest: Seq<Tok>) -> Seq<Tok> {
    seq![
        Tok::Punct('#', Spacing::Joint),
        Tok::Group(Delim::Bracket, marker_path() + seq![Tok::Group(Delim::Paren, rest)]),
    ]
}

/// What the rewriter returns: the item itself for an empty rule list;
/// `first ! { item }` for a single rule reference (a trailing comma after it
/// changes nothing); and `first ! { #[::apply_macro::apply(rest)] item }`
/// when further rule references remain.
pub open spec fn rewrite(args: Seq<Tok>, item: Seq<Tok>) -> Seq<Tok> {
    if args.len() == 0 {
        item
    } else {
        let rest = trailing_args(args);
        let body = if rest.len() == 0 {
            item
        } else {
            marker(rest) + item
        };
        leading_rule(args) + seq![bang(), Tok::Group(Delim::Brace, body)]
    }
}

/// When the first `i` tokens are no separators, and the one at `i` (if any)
/// is one, the list splits there: the leading rule is everything before `i`,
/// the trailing arguments everything after it.
pub proof fn lemma_split_at(args: Seq<Tok>, i: int)
    requires
        0 <= i <= args.len(),
        forall|j: int| 0 <= j < i ==> !is_sep(args[j]),
        i < args.len() ==> is_sep(args[i]),
    ensures
        leading_rule(args) == args.subrange(0, i),
        trailing_args(args) == if i < args.len() {
            args.skip(i + 1)
        } else {
            Seq::<Tok>::empty()
        },
    decreases i, args.len(),
{
    if args.len() == 0 {
        assert(leading_rule(args) =~= args.subrange(0, i));
    } else if i == 0 {
        if is_sep(args[0]) {
            assert(leading_rule(args) =~= args.subrange(0, 0));
            assert(args.skip(1) =~= args.skip(0int + 1));
        } else {
            lemma_split_at(args.skip(1), 0);
            assert(leading_rule(args) =~= args.subrange(0, 0));
            assert(trailing_args(args) == trailing_args(args.skip(1)));
        }
    } else {
        lemma_split_at(args.skip(1), i - 1);
        assert(leading_rule(args) =~= seq![args[0]] + args.skip(1).subrange(0, i - 1));
        assert(seq![args[0]] + args.skip(1).subrange(0, i - 1) =~= args.subrange(0, i));
        if i < args.len() {
            assert(args.skip(1).skip(i - 1 + 1) =~= args.skip(i + 1));
        }
    }
}

/// Whether this token separates rule references.
fn is_sep_token(t: &Token) -> (r: bool)
    ensures
        r == is_sep(tok_view(*t)),
{
    match t {
        Token::Punct(c, _) => *c == ',',
        _ => false,
    }
}

/// `rule ! { body }`: one function-like invocation of `rule` on `body`.
fn invoke(rule: Vec<Token>, body: Vec<Token>) -> (r: Vec<Token>)
    ensures
        toks_view(r@) == toks_view(rule@) + seq![
            bang(),
            Tok::Group(Delim::Brace, toks_view(body@)),
        ],
{
    let ghost rulev = rule@;
    let ghost bodyv = body@;
    let mut r = rule;
    r.push(Token::Punct('!', Spacing::Joint));
    r.push(Token::Group(Delim::Brace, body));
    proof {
        assert(toks_view(r@) =~= toks_view(rulev) + seq![
            bang(),
            Tok::Group(Delim::Brace, toks_view(bodyv)),
        ]);
    }
    r
}

/// The synthesized marker followed by the item:
/// `#[::apply_macro::apply(rest)] item`.
fn marked_item(rest: Vec<Token>, item: Vec<Token>) -> (r: Vec<Token>)
    ensures
        toks_view(r@) == marker(toks_view(rest@)) + toks_view(item@),
{
    let ghost restv = rest@;
    let ghost itemv = item@;
    let mut path: Vec<Token> = Vec::new();
    path.push(Token::Punct(':', Spacing::Joint));
    path.push(Token::Punct(':', Spacing::Joint));
    path.push(Token::Ident(String::from_str("apply_macro")));
    path.push(Token::Punct(':', Spacing::Joint));
    path.push(Token::Punct(':', Spacing::Joint));
    path.push(Token::Ident(String::from_str("apply")));
    path.push(Token::Group(Delim::Paren, rest));
    proof {
        assert(toks_view(path@) =~~= marker_path() + seq![
            Tok::Group(Delim::Paren, toks_view(restv)),
        ]);
    }
    let mut r: Vec<Token> = Vec::new();
    r.push(Token::Punct('#', Spacing::Joint));
    r.push(Token::Group(Delim::Bracket, path));
    let mut rest_item = item;
    r.append(&mut rest_item);
    proof {
        assert(toks_view(r@) =~~= marker(toks_view(restv)) + toks_view(itemv));
    }
    r
}

/// Rewrites one item under an ordered, comma-separated list of rule
/// references: an empty list returns the item untouched; otherwise the first
/// rule reference is invoked on the item, prefixed — when further rule
/// references remain — by a marker that re-enters this rewriter with them.
pub fn apply(args: Vec<Token>, input: Vec<Token>) -> (result: Vec<Token>)
    ensures
        toks_view(result@) == rewrite(toks_view(args@), toks_view(input@)),
{
    let ghost argsv = toks_view(args@);
    if args.len() == 0 {
        input
    } else {
        let mut args = args;
        let mut i: usize = 0;
        while i < args.len() && !is_sep_token(&args[i])
            invariant
                0 <= i <= args.len(),
                argsv == toks_view(args@),
                forall|j: int| 0 <= j < i ==> !is_sep(argsv[j]),
            decreases args.len() - i,
        {
            i = i + 1;
        }
        proof {
            lemma_split_at(argsv, i as int);
        }
        if i < args.len() {
            let rest = args.split_off(i + 1);
            args.truncate(i);
            proof {
                assert(toks_view(args@) =~= leading_rule(argsv));
                assert(toks_view(rest@) =~= trailing_args(argsv));
            }
            if rest.len() == 0 {
                invoke(args, input)
            } else {
                invoke(args, marked_item(rest, input))
            }
        } else {
            proof {
                assert(toks_view(args@) =~= leading_rule(argsv));
            }
            invoke(args, input)
        }
    }
}

} // verus!
