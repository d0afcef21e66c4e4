//! Laws of the rewriter: how its output relates to the rule list as a whole,
//! across trailing commas, nested commas, and the marker's own re-entries.

use vstd::prelude::*;

use crate::tokens::{Delim, Spacing, Tok};
use crate::rewrite::{
    bang, is_sep, leading_rule, marker, rewrite, trailing_args, lemma_split_at,
};

verus! {

/// No token of `s` is a top-level separator. Group tokens are atomic here:
/// commas inside them do not count.
pub open spec fn sep_free(s: Seq<Tok>) -> bool {
    forall|j: int| 0 <= j < s.len() ==> !is_sep(s[j])
}

/// What follows the first top-level comma is shorter than the whole list.
pub proof fn lemma_trailing_args_len(args: Seq<Tok>)
    ensures
        args.len() > 0 ==> trailing_args(args).len() < args.len(),
        args.len() == 0 ==> trailing_args(args).len() == 0,
    decreases args.len(),
{
    if args.len() > 0 && !is_sep(args[0]) {
        lemma_trailing_args_len(args.skip(1));
    }
}

/// The fully unfolded output: what repeated expansion of each synthesized
/// marker in place produces, one rewriter re-entry per remaining comma.
pub open spec fn expanded(args: Seq<Tok>, item: Seq<Tok>) -> Seq<Tok>
    decreases args.len(),
    via expanded_decreases
{
    if args.len() == 0 {
        item
    } else {
        leading_rule(args) + seq![
            bang(),
            Tok::Group(Delim::Brace, expanded(trailing_args(args), item)),
        ]
    }
}

#[via_fn]
proof fn expanded_decreases(args: Seq<Tok>, item: Seq<Tok>) {
    lemma_trailing_args_len(args);
}

/// With no top-level comma followed by further tokens, no marker is emitted:
/// the rewriter's output is already fully unfolded.
pub proof fn lemma_rewrite_fully_unfolded(args: Seq<Tok>, item: Seq<Tok>)
    requires
        trailing_args(args).len() == 0,
    ensures
        rewrite(args, item) == expanded(args, item),
{
    if args.len() > 0 {
        assert(trailing_args(args) =~= Seq::<Tok>::empty());
        assert(expanded(Seq::<Tok>::empty(), item) == item);
    }
}

/// An empty rule list is the identity: the item comes back untouched, with
/// no wrapping emitted at all.
pub proof fn lemma_empty_is_identity(item: Seq<Tok>)
    ensures
        rewrite(Seq::empty(), item) == item,
        expanded(Seq::empty(), item) == item,
{
}

/// A single rule reference, with or without a trailing comma, yields the
/// direct invocation `rule ! { item }`.
pub proof fn lemma_single_rule(rule: Seq<Tok>, c: Tok, item: Seq<Tok>)
    requires
        rule.len() > 0,
        sep_free(rule),
        is_sep(c),
    ensures
        rewrite(rule, item) == rule + seq![bang(), Tok::Group(Delim::Brace, item)],
        rewrite(rule.push(c), item) == rewrite(rule, item),
{
    lemma_split_at(rule, rule.len() as int);
    assert(rule.subrange(0, rule.len() as int) =~= rule);
    lemma_split_at(rule.push(c), rule.len() as int);
    assert(rule.push(c).subrange(0, rule.len() as int) =~= rule);
    assert(rule.push(c).skip(rule.len() as int + 1) =~= Seq::<Tok>::empty());
}

/// Two or more rule references: the output invokes the first one on the item
/// prefixed by the marker `#[::apply_macro::apply(rest)]`, whose payload is
/// the remaining list verbatim. The construction is self-consistent under
/// unfolding: expanding each marker in place applies the same pattern one
/// level down, to exactly `rest` and the original item.
pub proof fn lemma_multi_rule(first: Seq<Tok>, c: Tok, rest: Seq<Tok>, item: Seq<Tok>)
    requires
        first.len() > 0,
        sep_free(first),
        is_sep(c),
        rest.len() > 0,
    ensures
        rewrite(first + seq![c] + rest, item) == first + seq![
            bang(),
            Tok::Group(Delim::Brace, marker(rest) + item),
        ],
        expanded(first + seq![c] + rest, item) == first + seq![
            bang(),
            Tok::Group(Delim::Brace, expanded(rest, item)),
        ],
{
    let args = first + seq![c] + rest;
    lemma_split_at(args, first.len() as int);
    assert(args.subrange(0, first.len() as int) =~= first);
    assert(args.skip(first.len() as int + 1) =~= rest);
}

/// A comma nested inside a grouped sub-sequence is no separator: a rule
/// reference of the shape `name(...)` stays one reference, whatever commas
/// its argument group holds.
pub proof fn lemma_nested_commas_kept(name: Seq<char>, d: Delim, inner: Seq<Tok>, item: Seq<Tok>)
    ensures
        rewrite(seq![Tok::Ident(name), Tok::Group(d, inner)], item)
            == seq![Tok::Ident(name), Tok::Group(d, inner)] + seq![
                bang(),
                Tok::Group(Delim::Brace, item),
            ],
{
    let rule = seq![Tok::Ident(name), Tok::Group(d, inner)];
    lemma_single_rule(rule, Tok::Punct(',', Spacing::Alone), item);
}

/// Splitting off the head token of a list that goes on after it: the head
/// joins the leading rule, the unfolded remainder stays as it is.
proof fn lemma_expanded_cons(args: Seq<Tok>, item: Seq<Tok>)
    requires
        args.len() >= 2,
        !is_sep(args[0]),
    ensures
        expanded(args, item) == seq![args[0]] + expanded(args.skip(1), item),
{
    assert(expanded(args, item) =~= seq![args[0]] + expanded(args.skip(1), item));
}

/// A trailing comma after the last rule reference changes nothing of the
/// fully unfolded output.
pub proof fn lemma_trailing_comma(args: Seq<Tok>, c: Tok, item: Seq<Tok>)
    requires
        args.len() > 0,
        !is_sep(args.last()),
        is_sep(c),
    ensures
        expanded(args.push(c), item) == expanded(args, item),
    decreases args.len(),
{
    let pushed = args.push(c);
    if is_sep(args[0]) {
        assert(pushed.skip(1) =~= args.skip(1).push(c));
        lemma_trailing_comma(args.skip(1), c, item);
    } else if args.len() == 1 {
        assert(args.skip(1) =~= Seq::<Tok>::empty());
        assert(leading_rule(Seq::<Tok>::empty()) == Seq::<Tok>::empty());
        assert(trailing_args(Seq::<Tok>::empty()) == Seq::<Tok>::empty());
        assert(leading_rule(args) =~= args);
        assert(pushed.skip(1) =~= seq![c]);
        assert(leading_rule(seq![c]) == Seq::<Tok>::empty());
        assert(seq![c].skip(1) =~= Seq::<Tok>::empty());
        assert(trailing_args(seq![c]) == Seq::<Tok>::empty());
        assert(leading_rule(pushed) =~= args);
        assert(trailing_args(pushed) == Seq::<Tok>::empty());
    } else {
        lemma_expanded_cons(args, item);
        lemma_expanded_cons(pushed, item);
        assert(pushed.skip(1) =~= args.skip(1).push(c));
        lemma_trailing_comma(args.skip(1), c, item);
    }
}

} // verus!
