//! Token trees as plain values.
//!
//! A macro reads and writes token trees. Here a token tree is a value of the
//! library's own type `Token`; its mathematical model is `Tok`, where names
//! and literal texts are character sequences and a group holds the models of
//! its tokens. `tokens_of` reads the token trees of a `proc_macro2` token
//! stream.
use vstd::prelude::*;
use proc_macro2::Delimiter as OuterDelimiter;
use proc_macro2::Spacing as OuterSpacing;
use proc_macro2::TokenTree as OuterTree;

verus! {

broadcast use vstd::std_specs::vec::axiom_vec_index_decreases;

/// The delimiter of a group: `( )`, `{ }`, `[ ]`, or none at all.
#[derive(Clone, Copy, Debug, PartialEq, Eq, Structural)]
pub enum Delimiter {
    Parenthesis,
    Brace,
    Bracket,
    Invisible,
}

/// Whether a punctuation character is followed at once by another one.
#[derive(Clone, Copy, Debug, PartialEq, Eq, Structural)]
pub enum Spacing {
    Alone,
    Joint,
}

/// A token tree: an identifier (its text), a punctuation character, a
/// literal (its text), or a delimited group of token trees.
#[derive(Debug)]
pub enum Token {
    Ident(String),
    Punct(char, Spacing),
    Literal(String),
    Group(Delimiter, Vec<Token>),
}

/// The model of a token tree.
pub enum Tok {
    Ident(Seq<char>),
    Punct(char, Spacing),
    Literal(Seq<char>),
    Group(Delimiter, Seq<Tok>),
}

impl Token {
    /// The model of this token tree.
    pub open spec fn model(self) -> Tok
        decreases self,
    {
        match self {
            Token::Ident(s) => Tok::Ident(s@),
            Token::Punct(c, sp) => Tok::Punct(c, sp),
            Token::Literal(s) => Tok::Literal(s@),
            Token::Group(d, v) => Tok::Group(
                d,
                Seq::new(
                    v@.len(),
                    |i: int|
                        if 0 <= i < v@.len() {
                            v@[i].model()
                        } else {
                            Tok::Ident(seq![])
                        },
                ),
            ),
        }
    }
}

/// The models of a sequence of token trees.
pub open spec fn models(s: Seq<Token>) -> Seq<Tok> {
    Seq::new(s.len(), |i: int| s[i].model())
}

/// `t` is the identifier `name`.
pub open spec fn is_ident_tok(t: Tok, name: Seq<char>) -> bool {
    t matches Tok::Ident(s) && s == name
}

/// `t` is the punctuation character `c`, whatever its spacing.
pub open spec fn is_punct_tok(t: Tok, c: char) -> bool {
    t matches Tok::Punct(ch, _) && ch == c
}

/// `t` is a group delimited by `d`.
pub open spec fn is_group_tok(t: Tok, d: Delimiter) -> bool {
    t matches Tok::Group(e, _) && e == d
}

/// Whether `t` is the identifier `name`.
pub fn ident_is(t: &Token, name: &str) -> (b: bool)
    ensures
        b == is_ident_tok(t.model(), name@),
{
    match t {
        Token::Ident(s) => *s == name.to_owned(),
        _ => false,
    }
}

/// Whether `t` is the punctuation character `c`.
pub fn punct_is(t: &Token, c: char) -> (b: bool)
    ensures
        b == is_punct_tok(t.model(), c),
{
    match t {
        Token::Punct(ch, _) => *ch == c,
        _ => false,
    }
}

/// Whether `t` is a group delimited by `d`.
pub fn group_is(t: &Token, d: Delimiter) -> (b: bool)
    ensures
        b == is_group_tok(t.model(), d),
{
    match t {
        Token::Group(e, _) => *e == d,
        _ => false,
    }
}

/// A new identifier token.
pub fn ident(name: &str) -> (t: Token)
    ensures
        t.model() == Tok::Ident(name@),
{
    Token::Ident(name.to_owned())
}

/// A new punctuation token.
pub fn punct(c: char, sp: Spacing) -> (t: Token)
    ensures
        t.model() == Tok::Punct(c, sp),
{
    Token::Punct(c, sp)
}

/// The model of a group holds the models of its token trees.
pub proof fn lemma_group_model(d: Delimiter, v: Vec<Token>)
    ensures
        Token::Group(d, v).model() == Tok::Group(d, models(v@)),
{
    let t = Token::Group(d, v);
    assert(t.model() matches Tok::Group(e, s) && e == d && s =~= models(v@));
}

/// `s` is written as a raw identifier: `r#` and a name. Such a name with
/// text appended is no identifier.
pub open spec fn is_raw_name(s: Seq<char>) -> bool {
    s.len() >= 2 && s[0] == 'r' && s[1] == '#'
}

/// Whether `s` is written as a raw identifier.
pub fn raw_name(s: &String) -> (b: bool)
    ensures
        b == is_raw_name(s@),
{
    broadcast use vstd::string::axiom_spec_iter, vstd::string::next_postcondition;

    let mut it = s.as_str().chars();
    let c0 = it.next();
    let c1 = it.next();
    match (c0, c1) {
        (Some(a), Some(b)) => a == 'r' && b == '#',
        _ => false,
    }
}

/// A new literal token.
pub fn literal(text: &str) -> (t: Token)
    ensures
        t.model() == Tok::Literal(text@),
{
    Token::Literal(text.to_owned())
}

/// A new identifier token named `name`.
pub fn ident_of(name: &String) -> (t: Token)
    ensures
        t.model() == Tok::Ident(name@),
{
    Token::Ident(name.clone())
}

/// A new group of the token trees `v`.
pub fn group(d: Delimiter, v: Vec<Token>) -> (t: Token)
    ensures
        t.model() == Tok::Group(d, models(v@)),
{
    proof {
        lemma_group_model(d, v);
    }
    Token::Group(d, v)
}

/// A copy of a token tree.
pub fn clone_token(t: &Token) -> (r: Token)
    ensures
        r.model() == t.model(),
    decreases t,
{
    match t {
        Token::Ident(s) => Token::Ident(s.clone()),
        Token::Punct(c, sp) => Token::Punct(*c, *sp),
        Token::Literal(s) => Token::Literal(s.clone()),
        Token::Group(d, v) => {
            let w = clone_tokens(v);
            let r = Token::Group(*d, w);
            proof {
                lemma_group_model(*d, w);
                lemma_group_model(*d, *v);
            }
            r
        },
    }
}

/// A copy of a sequence of token trees.
pub fn clone_tokens(v: &Vec<Token>) -> (r: Vec<Token>)
    ensures
        models(r@) == models(v@),
    decreases v,
{
    clone_range(v, 0, v.len())
}

/// A copy of the token trees of `v` from `start` up to, not including, `end`.
pub fn clone_range(v: &Vec<Token>, start: usize, end: usize) -> (r: Vec<Token>)
    requires
        start <= end <= v.len(),
    ensures
        models(r@) == models(v@).subrange(start as int, end as int),
    decreases v, 0nat,
{
    let mut r: Vec<Token> = Vec::new();
    let mut i = start;
    while i < end
        invariant
            start <= i <= end <= v.len(),
            models(r@) =~= models(v@).subrange(start as int, i as int),
        decreases end - i,
    {
        let t = clone_token(&v[i]);
        let ghost tm = t.model();
        let ghost old_r = r@;
        r.push(t);
        assert(r@ == old_r.push(t));
        assert(models(r@) =~= models(old_r).push(tm));
        i = i + 1;
        assert(models(r@) =~= models(v@).subrange(start as int, i as int));
    }
    r
}

/// Appends copies of the token trees of `src` from `start` up to, not
/// including, `end` to `dst`.
pub fn extend_range(dst: &mut Vec<Token>, src: &Vec<Token>, start: usize, end: usize)
    requires
        start <= end <= src.len(),
    ensures
        models(final(dst)@) == models(old(dst)@) + models(src@).subrange(start as int, end as int),
{
    let mut i = start;
    while i < end
        invariant
            start <= i <= end <= src.len(),
            models(dst@) =~= models(old(dst)@) + models(src@).subrange(start as int, i as int),
        decreases end - i,
    {
        let t = clone_token(&src[i]);
        let ghost tm = t.model();
        let ghost old_d = dst@;
        dst.push(t);
        assert(models(dst@) =~= models(old_d).push(tm));
        i = i + 1;
        assert(models(dst@) =~= models(old(dst)@) + models(src@).subrange(start as int, i as int));
    }
}

/// Appends `t` to `dst`.
pub fn push_token(dst: &mut Vec<Token>, t: Token)
    ensures
        models(final(dst)@) == models(old(dst)@).push(t.model()),
{
    let ghost tm = t.model();
    dst.push(t);
    assert(models(dst@) =~= models(old(dst)@).push(tm));
}

/// Appends copies of all token trees of `src` to `dst`.
pub fn extend_all(dst: &mut Vec<Token>, src: &Vec<Token>)
    ensures
        models(final(dst)@) == models(old(dst)@) + models(src@),
{
    extend_range(dst, src, 0, src.len());
    assert(models(src@).subrange(0, src@.len() as int) =~= models(src@));
}

// ---------------------------------------------------------------------------
// Token trees of `proc_macro2`
// ---------------------------------------------------------------------------

#[verifier::external_type_specification]
#[verifier::external_body]
pub struct ExTokenStream(proc_macro2::TokenStream);

/// The token trees that a `proc_macro2` token stream holds, as models.
pub uninterp spec fn stream_tokens(ts: proc_macro2::TokenStream) -> Seq<Tok>;

/// A token tree as `proc_macro2` holds it, one level deep: a group keeps
/// its stream.
pub enum OuterTok {
    Ident(String),
    Punct(char, Spacing),
    Literal(String),
    Group(Delimiter, proc_macro2::TokenStream),
}

/// `o` is the token tree whose model is `t`, down to the stream of a group.
pub open spec fn outer_is(o: OuterTok, t: Tok) -> bool {
    match o {
        OuterTok::Ident(s) => t == Tok::Ident(s@),
        OuterTok::Punct(c, sp) => t == Tok::Punct(c, sp),
        OuterTok::Literal(s) => t == Tok::Literal(s@),
        OuterTok::Group(d, g) => t == Tok::Group(d, stream_tokens(g)),
    }
}

/// Takes the token trees of a `proc_macro2` token stream apart, one level
/// deep: each identifier and literal to its text (`Display`), each
/// punctuation to its character and spacing, each group to its delimiter
/// and its stream. The contract says that these are the stream's token
/// trees, whose models it only names.
#[verifier::external_body]
fn top_level(ts: &proc_macro2::TokenStream) -> (r: Vec<OuterTok>)
    ensures
        r@.len() == stream_tokens(*ts).len(),
        forall|i: int| 0 <= i < r@.len() ==> outer_is(#[trigger] r@[i], stream_tokens(*ts)[i]),
{
    ts.clone().into_iter().map(|tt| match tt {
        OuterTree::Ident(i) => OuterTok::Ident(i.to_string()),
        OuterTree::Punct(p) => OuterTok::Punct(p.as_char(), match p.spacing() {
            OuterSpacing::Joint => Spacing::Joint,
            OuterSpacing::Alone => Spacing::Alone,
        }),
        OuterTree::Literal(l) => OuterTok::Literal(l.to_string()),
        OuterTree::Group(g) => OuterTok::Group(match g.delimiter() {
            OuterDelimiter::Parenthesis => Delimiter::Parenthesis,
            OuterDelimiter::Brace => Delimiter::Brace,
            OuterDelimiter::Bracket => Delimiter::Bracket,
            OuterDelimiter::None => Delimiter::Invisible,
        }, g.stream()),
    }).collect()
}

/// The token trees of a `proc_macro2` token stream, as the library's.
pub fn tokens_of(ts: &proc_macro2::TokenStream) -> (r: Vec<Token>)
    ensures
        models(r@) == stream_tokens(*ts),
    decreases stream_tokens(*ts),
{
    broadcast use vstd::seq::axiom_seq_index_decreases;

    let ghost m = stream_tokens(*ts);
    let mut items = top_level(ts);
    let ghost orig = items@;
    let mut out: Vec<Token> = Vec::new();
    while items.len() > 0
        invariant
            m == stream_tokens(*ts),
            orig.len() == m.len(),
            forall|i: int| 0 <= i < orig.len() ==> outer_is(#[trigger] orig[i], m[i]),
            out@.len() + items@.len() == orig.len(),
            items@ == orig.skip(out@.len() as int),
            models(out@) == m.take(out@.len() as int),
        decreases items.len(),
    {
        let k = out.len();
        let o = items.remove(0);
        assert(o == orig[k as int]);
        assert(outer_is(o, m[k as int]));
        let t = match o {
            OuterTok::Ident(s) => Token::Ident(s),
            OuterTok::Punct(c, sp) => Token::Punct(c, sp),
            OuterTok::Literal(s) => Token::Literal(s),
            OuterTok::Group(d, g) => {
                assert(m[k as int] == Tok::Group(d, stream_tokens(g)));
                assert(decreases_to!(m => m[k as int]));
                assert(decreases_to!(m[k as int] => m[k as int]->Group_1));
                assert(m[k as int]->Group_1 == stream_tokens(g));
                assert(decreases_to!(m => stream_tokens(g)));
                let inner = tokens_of(&g);
                proof {
                    lemma_group_model(d, inner);
                }
                Token::Group(d, inner)
            },
        };
        assert(t.model() == m[k as int]);
        let ghost before = out@;
        out.push(t);
        assert(models(out@) =~= models(before).push(t.model()));
        assert(m.take(k + 1) =~= m.take(k as int).push(m[k as int]));
        assert(items@ =~= orig.skip(out@.len() as int));
    }
    assert(m.take(m.len() as int) =~= m);
    out
}

} // verus!
