//! The token model: executable tokens and their mathematical view.

use vstd::prelude::*;

verus! {

broadcast use vstd::std_specs::vec::group_vec_axioms, vstd::seq::group_seq_axioms;

/// Which bracket pair delimits a grouped sub-sequence.
#[derive(Debug, Clone, Copy, PartialEq, Eq, Structural)]
pub enum Delim {
    /// `( ... )`
    Paren,
    /// `[ ... ]`
    Bracket,
    /// `{ ... }`
    Brace,
    /// An invisible delimiter around an expanded sub-sequence.
    Invisible,
}

/// Whether a punctuation atom is immediately followed by another one that
/// forms a longer operator with it.
#[derive(Debug, Clone, Copy, PartialEq, Eq, Structural)]
pub enum Spacing {
    /// Joined with the next punctuation atom (as in the first `:` of `::`).
    Joint,
    /// Standing on its own.
    Alone,
}

/// The mathematical view of one token: what contracts and proofs speak of.
#[verifier::ext_equal]
pub enum Tok {
    /// An identifier or keyword, as its characters.
    Ident(Seq<char>),
    /// A literal (number, string, ...), as its characters.
    Lit(Seq<char>),
    /// One punctuation character with its spacing.
    Punct(char, Spacing),
    /// A delimited group of tokens; the delimiters are not tokens themselves.
    Group(Delim, Seq<Tok>),
}

/// One executable token: an atom or a balanced group.
#[derive(Debug, PartialEq, Eq)]
pub enum Token {
    /// An identifier or keyword.
    Ident(String),
    /// A literal (number, string, ...), kept as its textual form.
    Lit(String),
    /// One punctuation character with its spacing.
    Punct(char, Spacing),
    /// A delimited group of tokens.
    Group(Delim, Vec<Token>),
}

/// The views of the tokens of `ts` from position `i` on.
pub open spec fn views_from(ts: Seq<Token>, i: int) -> Seq<Tok>
    decreases ts, ts.len() - i,
{
    if i < 0 || i >= ts.len() {
        Seq::empty()
    } else {
        seq![tok_view(ts[i])] + views_from(ts, i + 1)
    }
}

/// The view of one executable token.
pub open spec fn tok_view(t: Token) -> Tok
    decreases t, 0int,
    via tok_view_decreases
{
    match t {
        Token::Ident(s) => Tok::Ident(s@),
        Token::Lit(s) => Tok::Lit(s@),
        Token::Punct(c, sp) => Tok::Punct(c, sp),
        Token::Group(d, ts) => Tok::Group(d, views_from(ts@, 0)),
    }
}

#[via_fn]
proof fn tok_view_decreases(t: Token) {
    match t {
        Token::Group(d, ts) => {
            assert(decreases_to!(t => ts));
            assert(decreases_to!(ts => ts@));
        },
        _ => {},
    }
}

/// The view of a whole token sequence.
pub open spec fn toks_view(ts: Seq<Token>) -> Seq<Tok> {
    views_from(ts, 0)
}

/// `views_from(ts, i)` holds exactly the views of `ts[i]`, `ts[i + 1]`, ...
pub broadcast proof fn lemma_views_from(ts: Seq<Token>, i: int)
    requires
        0 <= i <= ts.len(),
    ensures
        #[trigger] views_from(ts, i).len() == ts.len() - i,
        forall|j: int| 0 <= j < ts.len() - i ==> views_from(ts, i)[j] == tok_view(ts[i + j]),
    decreases ts.len() - i,
{
    if i < ts.len() {
        lemma_views_from(ts, i + 1);
    }
}

/// The view of a token sequence is its tokens' views, kept in order.
pub broadcast proof fn lemma_toks_view(ts: Seq<Token>)
    ensures
        #![trigger toks_view(ts)]
        toks_view(ts).len() == ts.len(),
        forall|j: int| 0 <= j < ts.len() ==> toks_view(ts)[j] == tok_view(ts[j]),
{
    lemma_views_from(ts, 0);
}

} // verus!
