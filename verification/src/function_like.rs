//! The function-like form of the macro.
//!
//! Its input is a struct definition followed by a trait whose name is left
//! out:
//!
//! ```text
//! pub struct Simple<A: Bound, B> where B: Other { a: A, b: B }
//! pub trait { type A: [A] = A; fn a(&self) -> Self::A { self.a } }
//! ```
//!
//! The struct is renamed to `SimpleConcrete`; the trait takes the struct's
//! name, loses its function bodies and associated values, and has each
//! `[T]` replaced by the bounds that the struct puts on `T`; an impl of the
//! trait for the struct follows, which keeps the function bodies and the
//! associated values.
use vstd::prelude::*;
use crate::token::{
    Delimiter, Spacing, Tok, Token, models, is_ident_tok, is_punct_tok, is_group_tok, ident_is, punct_is,
    group_is, ident, punct, push_token, clone_token, clone_tokens, clone_range, extend_range, extend_all,
    is_raw_name, raw_name,
};

verus! {

/// Why the function-like macro rejects its input.
#[derive(Clone, Copy, Debug, PartialEq, Eq, Structural)]
pub enum ExpandError {
    /// More tokens were needed.
    UnexpectedEndOfInput,
    /// The struct definition holds no `struct` keyword.
    StructKeywordNotFound,
    /// The `struct` keyword is not followed by a name.
    ExpectedStructName,
    /// The struct's name is a raw identifier, so that the struct's new
    /// name, its name followed by `Concrete`, is no identifier.
    RawStructName,
    /// The generic parameters do not fit between `<` and `>`.
    MalformedGenerics,
    /// A `>` closes more than was opened.
    TooManyClosingAngles,
    /// A `'` is not followed by a lifetime's name.
    ExpectedLifetimeName,
    /// A generic parameter does not start with a name, a lifetime or `<`.
    UnsupportedGenericParameter,
    /// A generic parameter's name is followed by neither `:` nor `,`.
    UnexpectedTokenAfterParameter,
    /// The `trait` keyword is not followed by a group.
    ExpectedTraitBody,
    /// A `[ ]` in an associated item names no type.
    NoTypeSpecified,
    /// A `[ ]` in an associated item does not start with a name.
    ExpectedTypeName,
    /// A `[ ]` in an associated item names no generic parameter of the struct.
    NotAGenericParameter,
}

// ---------------------------------------------------------------------------
// Searching a token sequence
// ---------------------------------------------------------------------------

/// The index of the first `{ }` group at or after `from`, or the length of
/// `ts` if there is none.
pub open spec fn first_brace_group(ts: Seq<Tok>, from: int) -> int
    decreases ts.len() - from,
{
    if from >= ts.len() {
        ts.len() as int
    } else if is_group_tok(ts[from], Delimiter::Brace) {
        from
    } else {
        first_brace_group(ts, from + 1)
    }
}

/// The index of the first identifier `name` at or after `from`, or the
/// length of `ts` if there is none.
pub open spec fn first_ident_named(ts: Seq<Tok>, from: int, name: Seq<char>) -> int
    decreases ts.len() - from,
{
    if from >= ts.len() {
        ts.len() as int
    } else if is_ident_tok(ts[from], name) {
        from
    } else {
        first_ident_named(ts, from + 1, name)
    }
}

/// The index of the last identifier `name` in `lo .. hi`, if there is one.
pub open spec fn last_ident_named(ts: Seq<Tok>, lo: int, hi: int, name: Seq<char>) -> Option<int>
    decreases hi - lo,
{
    if hi <= lo {
        None
    } else if is_ident_tok(ts[hi - 1], name) {
        Some(hi - 1)
    } else {
        last_ident_named(ts, lo, hi - 1, name)
    }
}

pub proof fn lemma_first_brace_group_bounds(ts: Seq<Tok>, from: int)
    requires
        0 <= from,
    ensures
        from <= first_brace_group(ts, from) || from > ts.len(),
        first_brace_group(ts, from) <= ts.len(),
        first_brace_group(ts, from) < ts.len() ==> is_group_tok(
            ts[first_brace_group(ts, from)],
            Delimiter::Brace,
        ),
    decreases ts.len() - from,
{
    if from < ts.len() && !is_group_tok(ts[from], Delimiter::Brace) {
        lemma_first_brace_group_bounds(ts, from + 1);
    }
}

pub proof fn lemma_first_ident_named_bounds(ts: Seq<Tok>, from: int, name: Seq<char>)
    requires
        0 <= from,
    ensures
        from <= first_ident_named(ts, from, name) || from > ts.len(),
        first_ident_named(ts, from, name) <= ts.len(),
        first_ident_named(ts, from, name) < ts.len() ==> is_ident_tok(
            ts[first_ident_named(ts, from, name)],
            name,
        ),
    decreases ts.len() - from,
{
    if from < ts.len() && !is_ident_tok(ts[from], name) {
        lemma_first_ident_named_bounds(ts, from + 1, name);
    }
}

pub proof fn lemma_last_ident_named_bounds(ts: Seq<Tok>, lo: int, hi: int, name: Seq<char>)
    ensures
        last_ident_named(ts, lo, hi, name) matches Some(w) ==> lo <= w < hi && is_ident_tok(
            ts[w],
            name,
        ),
    decreases hi - lo,
{
    if hi > lo && !is_ident_tok(ts[hi - 1], name) {
        lemma_last_ident_named_bounds(ts, lo, hi - 1, name);
    }
}

// ---------------------------------------------------------------------------
// Reading a type up to a separator
// ---------------------------------------------------------------------------

/// The tokens of a type that starts at `pos`, up to the first `ender` that
/// stands outside any `< >`, and the position after that `ender` (or `end`).
/// A `>` that closes nothing is an error.
pub open spec fn scan_type(ts: Seq<Tok>, pos: int, end: int, nesting: nat, ender: char) -> Result<
    (Seq<Tok>, int),
    ExpandError,
>
    decreases end - pos,
{
    if pos >= end {
        Ok((seq![], pos))
    } else {
        let t = ts[pos];
        if is_punct_tok(t, '>') {
            if nesting == 0 {
                Err(ExpandError::TooManyClosingAngles)
            } else {
                prepend_tok(t, scan_type(ts, pos + 1, end, (nesting - 1) as nat, ender))
            }
        } else if is_punct_tok(t, '<') {
            prepend_tok(t, scan_type(ts, pos + 1, end, nesting + 1, ender))
        } else if is_punct_tok(t, ender) && nesting == 0 {
            Ok((seq![], pos + 1))
        } else {
            prepend_tok(t, scan_type(ts, pos + 1, end, nesting, ender))
        }
    }
}

/// `r` with `t` put in front of the tokens it holds.
pub open spec fn prepend_tok(t: Tok, r: Result<(Seq<Tok>, int), ExpandError>) -> Result<
    (Seq<Tok>, int),
    ExpandError,
> {
    match r {
        Ok((s, p)) => Ok((seq![t] + s, p)),
        Err(e) => Err(e),
    }
}

/// `r` with `s` put in front of the tokens it holds.
pub open spec fn prepend_toks(s: Seq<Tok>, r: Result<(Seq<Tok>, int), ExpandError>) -> Result<
    (Seq<Tok>, int),
    ExpandError,
> {
    match r {
        Ok((s2, p)) => Ok((s + s2, p)),
        Err(e) => Err(e),
    }
}

/// Putting `t` and then `a` in front is putting `a + [t]` in front.
pub proof fn lemma_prepend_assoc(a: Seq<Tok>, t: Tok, r: Result<(Seq<Tok>, int), ExpandError>)
    ensures
        prepend_toks(a, prepend_tok(t, r)) == prepend_toks(a + seq![t], r),
{
    if let Ok((s, p)) = r {
        assert(a + (seq![t] + s) =~= (a + seq![t]) + s);
    }
}

pub proof fn lemma_scan_type_bounds(ts: Seq<Tok>, pos: int, end: int, nesting: nat, ender: char)
    requires
        pos <= end,
    ensures
        scan_type(ts, pos, end, nesting, ender) matches Ok((_, p)) ==> pos <= p <= end,
    decreases end - pos,
{
    if pos < end {
        let t = ts[pos];
        if is_punct_tok(t, '>') {
            if nesting != 0 {
                lemma_scan_type_bounds(ts, pos + 1, end, (nesting - 1) as nat, ender);
            }
        } else if is_punct_tok(t, '<') {
            lemma_scan_type_bounds(ts, pos + 1, end, nesting + 1, ender);
        } else if !(is_punct_tok(t, ender) && nesting == 0) {
            lemma_scan_type_bounds(ts, pos + 1, end, nesting, ender);
        }
    }
}

/// Reads the type that starts at `pos`, up to the first `ender` outside any
/// `< >`; returns its tokens and the position after the `ender`, or the
/// error for a `>` that closes more than was opened.
pub fn try_iter_type(tokens: &Vec<Token>, pos: usize, end: usize, ender: char) -> (r: Result<
    (Vec<Token>, usize),
    ExpandError,
>)
    requires
        pos <= end <= tokens.len(),
    ensures
        match r {
            Ok((v, p)) => scan_type(models(tokens@), pos as int, end as int, 0, ender) == Ok::<
                (Seq<Tok>, int),
                ExpandError,
            >((models(v@), p as int)),
            Err(e) => scan_type(models(tokens@), pos as int, end as int, 0, ender) == Err::<
                (Seq<Tok>, int),
                ExpandError,
            >(e),
        },
{
    let ghost ts = models(tokens@);
    let mut out: Vec<Token> = Vec::new();
    let mut nesting: usize = 0;
    let mut i = pos;
    while i < end
        invariant
            pos <= i <= end <= tokens.len(),
            ts == models(tokens@),
            nesting <= i - pos,
            scan_type(ts, pos as int, end as int, 0, ender) == prepend_toks(
                models(out@),
                scan_type(ts, i as int, end as int, nesting as nat, ender),
            ),
        decreases end - i,
    {
        let t = &tokens[i];
        let ghost tm = ts[i as int];
        let ghost n_old = nesting as nat;
        assert(tm == t.model());
        if punct_is(t, '>') {
            if nesting == 0 {
                return Err(ExpandError::TooManyClosingAngles);
            }
            nesting = nesting - 1;
        } else if punct_is(t, '<') {
            nesting = nesting + 1;
        } else if punct_is(t, ender) && nesting == 0 {
            return Ok((out, i + 1));
        }
        let ghost old_out = models(out@);
        let c = clone_token(t);
        out.push(c);
        assert(models(out@) =~= old_out + seq![tm]);
        proof {
            assert(scan_type(ts, i as int, end as int, n_old, ender) == prepend_tok(
                tm,
                scan_type(ts, i + 1, end as int, nesting as nat, ender),
            ));
            lemma_prepend_assoc(old_out, tm, scan_type(ts, i + 1, end as int, nesting as nat, ender));
        }
        i = i + 1;
    }
    assert(models(out@) + seq![] =~= models(out@));
    Ok((out, i))
}

/// Reads the type that starts at `pos`, up to the first `ender` outside any
/// `< >`, where no `>` closes more than was opened before that `ender`;
/// returns its tokens and the position after the `ender`.
pub fn iter_type(tokens: &Vec<Token>, pos: usize, end: usize, ender: char) -> (r: (Vec<Token>, usize))
    requires
        pos <= end <= tokens.len(),
        scan_type(models(tokens@), pos as int, end as int, 0, ender) is Ok,
    ensures
        scan_type(models(tokens@), pos as int, end as int, 0, ender) == Ok::<(Seq<Tok>, int), ExpandError>(
            (models(r.0@), r.1 as int),
        ),
{
    match try_iter_type(tokens, pos, end, ender) {
        Ok(r) => r,
        // the precondition rules this branch out
        Err(_) => (Vec::new(), pos),
    }
}

// ---------------------------------------------------------------------------
// Generic parameters and their bounds
// ---------------------------------------------------------------------------

/// A generic parameter of the struct, with the tokens of its bounds.
pub struct TypeConstraint {
    pub is_lifetime: bool,
    pub name: String,
    pub def: Vec<Token>,
}

/// The model of a generic parameter and its bounds.
pub struct ConstraintView {
    pub is_lifetime: bool,
    pub name: Seq<char>,
    pub def: Seq<Tok>,
}

impl TypeConstraint {
    /// The model of this parameter.
    pub open spec fn model(self) -> ConstraintView {
        ConstraintView { is_lifetime: self.is_lifetime, name: self.name@, def: models(self.def@) }
    }
}

/// The models of a sequence of parameters.
pub open spec fn cmodels(s: Seq<TypeConstraint>) -> Seq<ConstraintView> {
    Seq::new(s.len(), |i: int| s[i].model())
}

/// The generic parameters of the struct, in the order they are declared.
pub struct TypeConstraints(pub Vec<TypeConstraint>);

impl TypeConstraints {
    /// The models of these parameters.
    pub open spec fn model(self) -> Seq<ConstraintView> {
        cmodels(self.0@)
    }
}

/// Skips the rest of a `< >` that is open `nesting` times; the position
/// after the `>` that closes it.
pub open spec fn skip_angles(ts: Seq<Tok>, pos: int, end: int, nesting: nat) -> Result<
    int,
    ExpandError,
>
    decreases end - pos,
{
    if nesting == 0 {
        Ok(pos)
    } else if pos >= end {
        Err(ExpandError::UnexpectedEndOfInput)
    } else if is_punct_tok(ts[pos], '>') {
        skip_angles(ts, pos + 1, end, (nesting - 1) as nat)
    } else if is_punct_tok(ts[pos], '<') {
        skip_angles(ts, pos + 1, end, nesting + 1)
    } else {
        skip_angles(ts, pos + 1, end, nesting)
    }
}

pub proof fn lemma_skip_angles_bounds(ts: Seq<Tok>, pos: int, end: int, nesting: nat)
    requires
        pos <= end,
    ensures
        skip_angles(ts, pos, end, nesting) matches Ok(p) ==> pos <= p <= end,
    decreases end - pos,
{
    if nesting != 0 && pos < end {
        if is_punct_tok(ts[pos], '>') {
            lemma_skip_angles_bounds(ts, pos + 1, end, (nesting - 1) as nat);
        } else if is_punct_tok(ts[pos], '<') {
            lemma_skip_angles_bounds(ts, pos + 1, end, nesting + 1);
        } else {
            lemma_skip_angles_bounds(ts, pos + 1, end, nesting);
        }
    }
}

/// The name a parameter starts with at `pos`: whether it is a lifetime, the
/// name, and the position after it.
pub open spec fn param_head(ts: Seq<Tok>, pos: int, end: int) -> Result<
    (bool, Seq<char>, int),
    ExpandError,
> {
    match ts[pos] {
        Tok::Ident(name) => Ok((false, name, pos + 1)),
        _ => if is_punct_tok(ts[pos], '\'') {
            if pos + 1 >= end {
                Err(ExpandError::UnexpectedEndOfInput)
            } else {
                match ts[pos + 1] {
                    Tok::Ident(name) => Ok((true, name, pos + 2)),
                    _ => Err(ExpandError::ExpectedLifetimeName),
                }
            }
        } else {
            Err(ExpandError::UnsupportedGenericParameter)
        },
    }
}

/// One entry of a list of generic parameters or of a `where` clause, which
/// starts at `pos`: the parameter it declares, if any, and the position
/// after it. An entry that starts with `<` (a qualified path such as
/// `<T as Tr>::X: Bound`) or with a path such as `T::Item: Bound` declares
/// none. A name followed by anything but `:`, `,` or the end is rejected:
/// so are a default (`T = u8`) and a `for<..>` bound.
pub open spec fn parse_entry(ts: Seq<Tok>, pos: int, end: int) -> Result<
    (Option<ConstraintView>, int),
    ExpandError,
> {
    if is_punct_tok(ts[pos], '<') {
        match skip_angles(ts, pos + 1, end, 1) {
            Err(e) => Err(e),
            Ok(p) => match scan_type(ts, p, end, 0, ',') {
                Err(e) => Err(e),
                Ok((_, q)) => Ok((None, q)),
            },
        }
    } else {
        match param_head(ts, pos, end) {
            Err(e) => Err(e),
            Ok((lt, name, p)) => {
                let bare = ConstraintView { is_lifetime: lt, name: name, def: seq![] };
                if p >= end {
                    Ok((Some(bare), p))
                } else if is_punct_tok(ts[p], ',') {
                    Ok((Some(bare), p + 1))
                } else if !is_punct_tok(ts[p], ':') {
                    Err(ExpandError::UnexpectedTokenAfterParameter)
                } else if p + 1 >= end {
                    Err(ExpandError::UnexpectedEndOfInput)
                } else if is_punct_tok(ts[p + 1], ':') {
                    match scan_type(ts, p + 2, end, 0, ',') {
                        Err(e) => Err(e),
                        Ok((_, q)) => Ok((None, q)),
                    }
                } else {
                    match scan_type(ts, p + 2, end, 0, ',') {
                        Err(e) => Err(e),
                        Ok((d, q)) => Ok(
                            (
                                Some(
                                    ConstraintView {
                                        is_lifetime: lt,
                                        name: name,
                                        def: seq![ts[p + 1]] + d,
                                    },
                                ),
                                q,
                            ),
                        ),
                    }
                }
            },
        }
    }
}

pub proof fn lemma_parse_entry_progress(ts: Seq<Tok>, pos: int, end: int)
    requires
        pos < end,
    ensures
        parse_entry(ts, pos, end) matches Ok((_, q)) ==> pos < q <= end,
{
    if is_punct_tok(ts[pos], '<') {
        lemma_skip_angles_bounds(ts, pos + 1, end, 1);
        if let Ok(p) = skip_angles(ts, pos + 1, end, 1) {
            lemma_scan_type_bounds(ts, p, end, 0, ',');
        }
    } else if let Ok((lt, name, p)) = param_head(ts, pos, end) {
        if p < end && !is_punct_tok(ts[p], ',') && is_punct_tok(ts[p], ':') && p + 1 < end {
            lemma_scan_type_bounds(ts, p + 2, end, 0, ',');
        }
    }
}

/// The parameters declared by the entries from `pos` to `end`.
pub open spec fn parse_constraints(ts: Seq<Tok>, pos: int, end: int) -> Result<
    Seq<ConstraintView>,
    ExpandError,
>
    decreases end - pos,
{
    if pos >= end {
        Ok(seq![])
    } else {
        match parse_entry(ts, pos, end) {
            Err(e) => Err(e),
            Ok((oc, q)) => {
                proof {
                    lemma_parse_entry_progress(ts, pos, end);
                }
                match parse_constraints(ts, q, end) {
                    Err(e) => Err(e),
                    Ok(rest) => Ok(
                        match oc {
                            Some(c) => seq![c] + rest,
                            None => rest,
                        },
                    ),
                }
            },
        }
    }
}

/// `r` with `s` put in front of the parameters it holds.
pub open spec fn prepend_constraints(
    s: Seq<ConstraintView>,
    r: Result<Seq<ConstraintView>, ExpandError>,
) -> Result<Seq<ConstraintView>, ExpandError> {
    match r {
        Ok(s2) => Ok(s + s2),
        Err(e) => Err(e),
    }
}

/// The model of an optional parameter.
pub open spec fn opt_cmodel(o: Option<TypeConstraint>) -> Option<ConstraintView> {
    match o {
        Some(c) => Some(c.model()),
        None => None,
    }
}

/// Skips the rest of a `< >` that was opened just before `pos`; returns the
/// position after the `>` that closes it.
fn skip_generic_binder(tokens: &Vec<Token>, pos: usize, end: usize) -> (r: Result<usize, ExpandError>)
    requires
        0 < pos <= end <= tokens.len(),
    ensures
        match r {
            Ok(p) => skip_angles(models(tokens@), pos as int, end as int, 1) == Ok::<int, ExpandError>(p as int),
            Err(e) => skip_angles(models(tokens@), pos as int, end as int, 1) == Err::<int, ExpandError>(e),
        },
{
    let ghost ts = models(tokens@);
    let mut nesting: usize = 1;
    let mut i = pos;
    while nesting != 0
        invariant
            pos <= i <= end <= tokens.len(),
            ts == models(tokens@),
            0 < pos,
            nesting <= i - pos + 1,
            skip_angles(ts, pos as int, end as int, 1) == skip_angles(ts, i as int, end as int, nesting as nat),
        decreases end - i,
    {
        if i >= end {
            return Err(ExpandError::UnexpectedEndOfInput);
        }
        let t = &tokens[i];
        assert(ts[i as int] == t.model());
        if punct_is(t, '>') {
            nesting = nesting - 1;
        } else if punct_is(t, '<') {
            nesting = nesting + 1;
        }
        i = i + 1;
    }
    Ok(i)
}

/// Reads the entry of a list of generic parameters, or of a `where` clause,
/// that starts at `pos`.
pub fn parse_entry_at(tokens: &Vec<Token>, pos: usize, end: usize) -> (r: Result<
    (Option<TypeConstraint>, usize),
    ExpandError,
>)
    requires
        pos < end <= tokens.len(),
    ensures
        match r {
            Ok((oc, q)) => parse_entry(models(tokens@), pos as int, end as int) == Ok::<
                (Option<ConstraintView>, int),
                ExpandError,
            >((opt_cmodel(oc), q as int)),
            Err(e) => parse_entry(models(tokens@), pos as int, end as int) == Err::<
                (Option<ConstraintView>, int),
                ExpandError,
            >(e),
        },
{
    let ghost ts = models(tokens@);
    let first = &tokens[pos];
    assert(ts[pos as int] == first.model());
    if punct_is(first, '<') {
        let p = skip_generic_binder(tokens, pos + 1, end)?;
        proof {
            lemma_skip_angles_bounds(ts, pos + 1, end as int, 1);
        }
        let (_, q) = try_iter_type(tokens, p, end, ',')?;
        return Ok((None, q));
    }
    let (is_lifetime, name, p) = match first {
        Token::Ident(i) => (false, i.clone(), pos + 1),
        _ => {
            if punct_is(first, '\'') {
                if pos + 1 >= end {
                    return Err(ExpandError::UnexpectedEndOfInput);
                }
                assert(ts[pos + 1] == tokens@[pos + 1].model());
                match &tokens[pos + 1] {
                    Token::Ident(i) => (true, i.clone(), pos + 2),
                    _ => {
                        return Err(ExpandError::ExpectedLifetimeName);
                    },
                }
            } else {
                return Err(ExpandError::UnsupportedGenericParameter);
            }
        },
    };
    assert(param_head(ts, pos as int, end as int) == Ok::<(bool, Seq<char>, int), ExpandError>(
        (is_lifetime, name@, p as int),
    ));
    if p >= end {
        let c = TypeConstraint { is_lifetime, name, def: Vec::new() };
        assert(models(c.def@) =~= seq![]);
        return Ok((Some(c), p));
    }
    assert(ts[p as int] == tokens@[p as int].model());
    if punct_is(&tokens[p], ',') {
        let c = TypeConstraint { is_lifetime, name, def: Vec::new() };
        assert(models(c.def@) =~= seq![]);
        return Ok((Some(c), p + 1));
    }
    if !punct_is(&tokens[p], ':') {
        return Err(ExpandError::UnexpectedTokenAfterParameter);
    }
    if p + 1 >= end {
        return Err(ExpandError::UnexpectedEndOfInput);
    }
    assert(ts[p + 1] == tokens@[p + 1].model());
    if punct_is(&tokens[p + 1], ':') {
        let (_, q) = try_iter_type(tokens, p + 2, end, ',')?;
        return Ok((None, q));
    }
    let mut def: Vec<Token> = Vec::new();
    def.push(clone_token(&tokens[p + 1]));
    let (rest, q) = try_iter_type(tokens, p + 2, end, ',')?;
    let ghost first_def = models(def@);
    extend_all(&mut def, &rest);
    assert(first_def =~= seq![ts[p + 1]]);
    let c = TypeConstraint { is_lifetime, name, def };
    assert(c.model() == ConstraintView {
        is_lifetime: is_lifetime,
        name: name@,
        def: seq![ts[p + 1]] + models(rest@),
    });
    Ok((Some(c), q))
}

impl TypeConstraints {
    /// Reads the generic parameters declared from `start` to `end`: the
    /// contents of a struct's `< >`, or of its `where` clause; or the error
    /// for the first entry that cannot be read.
    pub fn try_new(tokens: &Vec<Token>, start: usize, end: usize) -> (r: Result<Self, ExpandError>)
        requires
            start <= end <= tokens.len(),
        ensures
            match r {
                Ok(cs) => parse_constraints(models(tokens@), start as int, end as int) == Ok::<
                    Seq<ConstraintView>,
                    ExpandError,
                >(cs.model()),
                Err(e) => parse_constraints(models(tokens@), start as int, end as int) == Err::<
                    Seq<ConstraintView>,
                    ExpandError,
                >(e),
            },
    {
        let ghost ts = models(tokens@);
        let mut v: Vec<TypeConstraint> = Vec::new();
        let mut pos = start;
        while pos < end
            invariant
                start <= pos <= end <= tokens.len(),
                ts == models(tokens@),
                parse_constraints(ts, start as int, end as int) == prepend_constraints(
                    cmodels(v@),
                    parse_constraints(ts, pos as int, end as int),
                ),
            decreases end - pos,
        {
            let (oc, q) = parse_entry_at(tokens, pos, end)?;
            proof {
                lemma_parse_entry_progress(ts, pos as int, end as int);
            }
            let ghost old_v = cmodels(v@);
            let ghost rest = parse_constraints(ts, q as int, end as int);
            match oc {
                Some(c) => {
                    let ghost cm = c.model();
                    v.push(c);
                    assert(cmodels(v@) =~= old_v + seq![cm]);
                    proof {
                        if let Ok(s2) = rest {
                            assert(old_v + (seq![cm] + s2) =~= (old_v + seq![cm]) + s2);
                        }
                    }
                },
                None => {
                    assert(cmodels(v@) =~= old_v);
                },
            }
            pos = q;
        }
        assert(cmodels(v@) + seq![] =~= cmodels(v@));
        Ok(TypeConstraints(v))
    }

    /// Reads the generic parameters declared from `start` to `end`, where
    /// every entry can be read: the contents of a struct's `< >`, or of its
    /// `where` clause.
    pub fn new(tokens: &Vec<Token>, start: usize, end: usize) -> (r: Self)
        requires
            start <= end <= tokens.len(),
            parse_constraints(models(tokens@), start as int, end as int) is Ok,
        ensures
            parse_constraints(models(tokens@), start as int, end as int) == Ok::<
                Seq<ConstraintView>,
                ExpandError,
            >(r.model()),
    {
        match Self::try_new(tokens, start, end) {
            Ok(cs) => cs,
            // the precondition rules this branch out
            Err(_) => TypeConstraints(Vec::new()),
        }
    }
}


// ---------------------------------------------------------------------------
// Merging the bounds of the `where` clause into the parameters
// ---------------------------------------------------------------------------

/// The index of the first parameter named `name` at or after `from`.
pub open spec fn first_named(cs: Seq<ConstraintView>, name: Seq<char>, from: int) -> Option<int>
    decreases cs.len() - from,
{
    if from >= cs.len() {
        None
    } else if cs[from].name == name {
        Some(from)
    } else {
        first_named(cs, name, from + 1)
    }
}

pub proof fn lemma_first_named_bounds(cs: Seq<ConstraintView>, name: Seq<char>, from: int)
    requires
        0 <= from,
    ensures
        first_named(cs, name, from) matches Some(k) ==> from <= k < cs.len() && cs[k].name == name,
    decreases cs.len() - from,
{
    if from < cs.len() && cs[from].name != name {
        lemma_first_named_bounds(cs, name, from + 1);
    }
}

/// Some parameter before index `i` is named `name`.
pub open spec fn named_before(cs: Seq<ConstraintView>, i: int, name: Seq<char>) -> bool {
    exists|j: int| 0 <= j < i && #[trigger] cs[j].name == name
}

/// The bounds `d` joined with the bounds `o`: `o` alone where `d` is empty,
/// else `d + o`.
pub open spec fn merged_def(d: Seq<Tok>, o: Seq<Tok>) -> Seq<Tok> {
    if d.len() == 0 {
        o
    } else {
        d + seq![Tok::Punct('+', Spacing::Alone)] + o
    }
}

/// Parameter `i` of `cs` once the bounds of `other` are merged in: the
/// first entry of `other` with its name lends it its bounds, unless an
/// earlier parameter of the same name took them already (then it lends none).
pub open spec fn merged_one(cs: Seq<ConstraintView>, other: Seq<ConstraintView>, i: int) -> ConstraintView {
    let c = cs[i];
    match first_named(other, c.name, 0) {
        None => c,
        Some(k) => ConstraintView {
            is_lifetime: c.is_lifetime,
            name: c.name,
            def: merged_def(
                c.def,
                if named_before(cs, i, c.name) {
                    seq![]
                } else {
                    other[k].def
                },
            ),
        },
    }
}

/// The parameters `cs` with the bounds of `other` merged in.
pub open spec fn merged(cs: Seq<ConstraintView>, other: Seq<ConstraintView>) -> Seq<ConstraintView> {
    Seq::new(cs.len(), |i: int| merged_one(cs, other, i))
}

/// A copy of a parameter.
fn clone_constraint(c: &TypeConstraint) -> (r: TypeConstraint)
    ensures
        r.model() == c.model(),
{
    TypeConstraint { is_lifetime: c.is_lifetime, name: c.name.clone(), def: clone_tokens(&c.def) }
}

/// The index of the first parameter of `cs` named `name`.
fn find_named(cs: &Vec<TypeConstraint>, name: &String) -> (r: Option<usize>)
    ensures
        match r {
            Some(k) => first_named(cmodels(cs@), name@, 0) == Some(k as int),
            None => first_named(cmodels(cs@), name@, 0) is None,
        },
{
    let ghost m = cmodels(cs@);
    let mut k: usize = 0;
    while k < cs.len()
        invariant
            0 <= k <= cs.len(),
            m == cmodels(cs@),
            first_named(m, name@, 0) == first_named(m, name@, k as int),
        decreases cs.len() - k,
    {
        assert(m[k as int].name == cs@[k as int].name@);
        if cs[k].name == *name {
            return Some(k);
        }
        k = k + 1;
    }
    None
}

/// Whether a parameter before index `i` of `cs` is named `name`.
fn is_named_before(cs: &Vec<TypeConstraint>, i: usize, name: &String) -> (b: bool)
    requires
        i <= cs.len(),
    ensures
        b == named_before(cmodels(cs@), i as int, name@),
{
    let ghost m = cmodels(cs@);
    let mut j: usize = 0;
    while j < i
        invariant
            0 <= j <= i <= cs.len(),
            m == cmodels(cs@),
            forall|l: int| 0 <= l < j ==> #[trigger] m[l].name != name@,
        decreases i - j,
    {
        assert(m[j as int].name == cs@[j as int].name@);
        if cs[j].name == *name {
            return true;
        }
        j = j + 1;
    }
    false
}

impl TypeConstraints {
    /// Merges the bounds that `other` (the entries of a `where` clause) puts
    /// on each parameter into that parameter's bounds.
    pub fn merge(&mut self, other: TypeConstraints)
        ensures
            final(self).model() == merged(old(self).model(), other.model()),
    {
        let ghost cs = old(self).model();
        let ghost om = other.model();
        let mut out: Vec<TypeConstraint> = Vec::new();
        let n: usize = self.0.len();
        let mut i: usize = 0;
        while i < n
            invariant
                0 <= i <= n == self.0.len(),
                cs == self.model(),
                om == other.model(),
                cmodels(out@) =~= merged(cs, om).subrange(0, i as int),
            decreases n - i,
        {
            let cons = &self.0[i];
            assert(cs[i as int] == cons.model());
            let merged_cons = match find_named(&other.0, &cons.name) {
                None => clone_constraint(cons),
                Some(k) => {
                    proof {
                        lemma_first_named_bounds(om, cons.name@, 0);
                    }
                    let seen = is_named_before(&self.0, i, &cons.name);
                    let mut def = clone_tokens(&cons.def);
                    let ghost d0 = models(def@);
                    if def.len() != 0 {
                        def.push(punct('+', Spacing::Alone));
                        assert(models(def@) =~= d0 + seq![Tok::Punct('+', Spacing::Alone)]);
                    }
                    let ghost d1 = models(def@);
                    if !seen {
                        extend_all(&mut def, &other.0[k].def);
                        assert(om[k as int].def == models(other.0@[k as int].def@));
                    }
                    assert(models(def@) =~= merged_def(
                        cs[i as int].def,
                        if seen { seq![] } else { om[k as int].def },
                    ));
                    TypeConstraint { is_lifetime: cons.is_lifetime, name: cons.name.clone(), def }
                },
            };
            let ghost mc = merged_cons.model();
            let ghost old_out = cmodels(out@);
            out.push(merged_cons);
            assert(cmodels(out@) =~= old_out.push(mc));
            assert(mc == merged_one(cs, om, i as int));
            i = i + 1;
            assert(cmodels(out@) =~= merged(cs, om).subrange(0, i as int));
        }
        self.0 = out;
        assert(cmodels(self.0@) =~= merged(cs, om));
    }
}

// ---------------------------------------------------------------------------
// The parameters as arguments
// ---------------------------------------------------------------------------

/// The tokens that name parameter `c` as an argument: `'a,` or `T,`.
pub open spec fn var_tokens(c: ConstraintView) -> Seq<Tok> {
    (if c.is_lifetime {
        seq![Tok::Punct('\'', Spacing::Joint)]
    } else {
        seq![]
    }) + seq![Tok::Ident(c.name), Tok::Punct(',', Spacing::Alone)]
}

/// The tokens that name all parameters of `cs` as arguments, in order.
pub open spec fn vars_of(cs: Seq<ConstraintView>) -> Seq<Tok>
    decreases cs.len(),
{
    if cs.len() == 0 {
        seq![]
    } else {
        vars_of(cs.drop_last()) + var_tokens(cs.last())
    }
}

impl TypeConstraints {
    /// The parameters as a list of arguments, each followed by a comma.
    pub fn vars(&self) -> (v: Vec<Token>)
        ensures
            models(v@) == vars_of(self.model()),
    {
        let ghost cs = self.model();
        let mut v: Vec<Token> = Vec::new();
        let mut i: usize = 0;
        while i < self.0.len()
            invariant
                0 <= i <= self.0.len(),
                cs == self.model(),
                models(v@) == vars_of(cs.subrange(0, i as int)),
            decreases self.0.len() - i,
        {
            let cons = &self.0[i];
            let ghost before = models(v@);
            if cons.is_lifetime {
                v.push(punct('\'', Spacing::Joint));
            }
            v.push(Token::Ident(cons.name.clone()));
            v.push(punct(',', Spacing::Alone));
            assert(cs[i as int] == cons.model());
            assert(models(v@) =~= before + var_tokens(cs[i as int]));
            assert(cs.subrange(0, i + 1).drop_last() =~= cs.subrange(0, i as int));
            i = i + 1;
        }
        assert(cs.subrange(0, self.0.len() as int) =~= cs);
        v
    }
}


// ---------------------------------------------------------------------------
// The bodies of the trait and of its impl
// ---------------------------------------------------------------------------

/// Where the trait's body is read: outside any item, in an associated item
/// before its `=`, in an associated item's value, or in a function's header.
#[derive(Clone, Copy, PartialEq, Eq, Structural)]
pub enum BodyState {
    Idle,
    Assoc,
    AssocVal,
    Fn,
}

/// What token `t` of the trait's body becomes in state `st`, and the next
/// state. In an associated item, `[T]` becomes the bounds of parameter `T`
/// and the value after `=` is dropped; a function loses its body to `;`.
pub open spec fn body_step(t: Tok, st: BodyState, cs: Seq<ConstraintView>) -> Result<
    (Seq<Tok>, BodyState),
    ExpandError,
> {
    match st {
        BodyState::Idle => if is_ident_tok(t, "type"@) || is_ident_tok(t, "const"@) {
            Ok((seq![t], BodyState::Assoc))
        } else if is_ident_tok(t, "fn"@) {
            Ok((seq![t], BodyState::Fn))
        } else {
            Ok((seq![t], BodyState::Idle))
        },
        BodyState::Assoc => match t {
            Tok::Group(Delimiter::Bracket, inner) => if inner.len() == 0 {
                Err(ExpandError::NoTypeSpecified)
            } else {
                match inner[0] {
                    Tok::Ident(n) => match first_named(cs, n, 0) {
                        Some(k) => Ok((cs[k].def, BodyState::Assoc)),
                        None => Err(ExpandError::NotAGenericParameter),
                    },
                    _ => Err(ExpandError::ExpectedTypeName),
                }
            },
            _ => if is_punct_tok(t, '=') {
                Ok((seq![], BodyState::AssocVal))
            } else {
                Ok((seq![t], BodyState::Assoc))
            },
        },
        BodyState::AssocVal => if is_punct_tok(t, ';') {
            Ok((seq![t], BodyState::Idle))
        } else {
            Ok((seq![], BodyState::AssocVal))
        },
        BodyState::Fn => if is_group_tok(t, Delimiter::Brace) {
            Ok((seq![Tok::Punct(';', Spacing::Alone)], BodyState::Idle))
        } else {
            Ok((seq![t], BodyState::Fn))
        },
    }
}

/// The trait's body from token `i` on, read in state `st`.
pub open spec fn strip_body(ts: Seq<Tok>, i: int, st: BodyState, cs: Seq<ConstraintView>) -> Result<
    Seq<Tok>,
    ExpandError,
>
    decreases ts.len() - i,
{
    if i >= ts.len() {
        Ok(seq![])
    } else {
        match body_step(ts[i], st, cs) {
            Err(e) => Err(e),
            Ok((out, st2)) => match strip_body(ts, i + 1, st2, cs) {
                Err(e) => Err(e),
                Ok(rest) => Ok(out + rest),
            },
        }
    }
}

/// `r` with `s` put in front of the tokens it holds.
pub open spec fn prepend_body(s: Seq<Tok>, r: Result<Seq<Tok>, ExpandError>) -> Result<
    Seq<Tok>,
    ExpandError,
> {
    match r {
        Ok(s2) => Ok(s + s2),
        Err(e) => Err(e),
    }
}

/// The body of the trait: the tokens of `body` where each function loses
/// its body to `;`, each associated item loses its value, and each `[T]` in
/// an associated item becomes the bounds of the struct's parameter `T`; or
/// the error for the first `[ ]` that names no parameter.
pub fn try_strip_trait_body(body: &Vec<Token>, type_constraints: &TypeConstraints) -> (r: Result<
    Vec<Token>,
    ExpandError,
>)
    ensures
        match r {
            Ok(v) => strip_body(models(body@), 0, BodyState::Idle, type_constraints.model())
                == Ok::<Seq<Tok>, ExpandError>(models(v@)),
            Err(e) => strip_body(models(body@), 0, BodyState::Idle, type_constraints.model())
                == Err::<Seq<Tok>, ExpandError>(e),
        },
{
    let ghost ts = models(body@);
    let ghost cs = type_constraints.model();
    let mut out: Vec<Token> = Vec::new();
    let mut state = BodyState::Idle;
    let mut i: usize = 0;
    while i < body.len()
        invariant
            0 <= i <= body.len(),
            ts == models(body@),
            cs == type_constraints.model(),
            strip_body(ts, 0, BodyState::Idle, cs) == prepend_body(
                models(out@),
                strip_body(ts, i as int, state, cs),
            ),
        decreases body.len() - i,
    {
        let t = &body[i];
        let ghost tm = t.model();
        assert(ts[i as int] == tm);
        let ghost before = models(out@);
        let ghost st0 = state;
        match state {
            BodyState::Idle => {
                if ident_is(t, "type") || ident_is(t, "const") {
                    state = BodyState::Assoc;
                } else if ident_is(t, "fn") {
                    state = BodyState::Fn;
                }
                out.push(clone_token(t));
            },
            BodyState::Assoc => {
                match t {
                    Token::Group(Delimiter::Bracket, inner) => {
                        proof {
                            crate::token::lemma_group_model(Delimiter::Bracket, *inner);
                        }
                        if inner.len() == 0 {
                            return Err(ExpandError::NoTypeSpecified);
                        }
                        assert(models(inner@)[0] == inner@[0].model());
                        let ty = match &inner[0] {
                            Token::Ident(n) => n,
                            _ => {
                                return Err(ExpandError::ExpectedTypeName);
                            },
                        };
                        match find_named(&type_constraints.0, ty) {
                            Some(k) => {
                                proof {
                                    lemma_first_named_bounds(cs, ty@, 0);
                                }
                                extend_all(&mut out, &type_constraints.0[k].def);
                            },
                            None => {
                                return Err(ExpandError::NotAGenericParameter);
                            },
                        }
                    },
                    _ => {
                        if punct_is(t, '=') {
                            state = BodyState::AssocVal;
                        } else {
                            out.push(clone_token(t));
                        }
                    },
                }
            },
            BodyState::AssocVal => {
                if punct_is(t, ';') {
                    state = BodyState::Idle;
                    out.push(clone_token(t));
                }
            },
            BodyState::Fn => {
                if group_is(t, Delimiter::Brace) {
                    state = BodyState::Idle;
                    out.push(punct(';', Spacing::Alone));
                } else {
                    out.push(clone_token(t));
                }
            },
        }
        proof {
            let step = body_step(tm, st0, cs);
            assert(step is Ok);
            let (emitted, st1) = step.unwrap();
            assert(st1 == state);
            assert(models(out@) =~= before + emitted);
            let rest = strip_body(ts, i + 1, state, cs);
            assert(strip_body(ts, i as int, st0, cs) == prepend_body(emitted, rest));
            if let Ok(r2) = rest {
                assert(before + (emitted + r2) =~= (before + emitted) + r2);
            }
        }
        i = i + 1;
    }
    assert(models(out@) + seq![] =~= models(out@));
    Ok(out)
}

/// The body of the trait, where each `[ ]` names a parameter of the struct:
/// the tokens of `body` where each function loses its body to `;`, each
/// associated item loses its value, and each `[T]` in an associated item
/// becomes the bounds of the struct's parameter `T`.
pub fn strip_trait_body(body: &Vec<Token>, type_constraints: &TypeConstraints) -> (r: Vec<Token>)
    requires
        strip_body(models(body@), 0, BodyState::Idle, type_constraints.model()) is Ok,
    ensures
        strip_body(models(body@), 0, BodyState::Idle, type_constraints.model()) == Ok::<
            Seq<Tok>,
            ExpandError,
        >(models(r@)),
{
    match try_strip_trait_body(body, type_constraints) {
        Ok(v) => v,
        // the precondition rules this branch out
        Err(_) => Vec::new(),
    }
}

/// Where the body of the trait's impl is read: outside an associated type,
/// just after `type`, or between an associated type's name and its `=`.
#[derive(Clone, Copy, PartialEq, Eq, Structural)]
pub enum ImplState {
    Idle,
    Assoc,
    AssocType,
}

/// What token `t` of the impl's body becomes in state `st`, and the next
/// state: an associated type loses what stands between its name and `=`.
pub open spec fn impl_step(t: Tok, st: ImplState) -> (Seq<Tok>, ImplState) {
    match st {
        ImplState::Idle => if is_ident_tok(t, "type"@) {
            (seq![t], ImplState::Assoc)
        } else {
            (seq![t], ImplState::Idle)
        },
        ImplState::Assoc => (seq![t], ImplState::AssocType),
        ImplState::AssocType => if is_punct_tok(t, '=') {
            (seq![t], ImplState::Idle)
        } else {
            (seq![], ImplState::AssocType)
        },
    }
}

/// The impl's body from token `i` on, read in state `st`.
pub open spec fn strip_impl(ts: Seq<Tok>, i: int, st: ImplState) -> Seq<Tok>
    decreases ts.len() - i,
{
    if i >= ts.len() {
        seq![]
    } else {
        impl_step(ts[i], st).0 + strip_impl(ts, i + 1, impl_step(ts[i], st).1)
    }
}

/// The body of the trait's impl: the tokens of `body` where each associated
/// type loses its bounds, keeping its name and its value.
pub fn strip_trait_impl_body(body: &Vec<Token>) -> (r: Vec<Token>)
    ensures
        models(r@) == strip_impl(models(body@), 0, ImplState::Idle),
{
    let ghost ts = models(body@);
    let mut out: Vec<Token> = Vec::new();
    let mut state = ImplState::Idle;
    let mut i: usize = 0;
    while i < body.len()
        invariant
            0 <= i <= body.len(),
            ts == models(body@),
            strip_impl(ts, 0, ImplState::Idle) == models(out@) + strip_impl(ts, i as int, state),
        decreases body.len() - i,
    {
        let t = &body[i];
        let ghost tm = t.model();
        assert(ts[i as int] == tm);
        let ghost before = models(out@);
        let ghost st0 = state;
        match state {
            ImplState::Idle => {
                if ident_is(t, "type") {
                    state = ImplState::Assoc;
                }
                out.push(clone_token(t));
            },
            ImplState::Assoc => {
                state = ImplState::AssocType;
                out.push(clone_token(t));
            },
            ImplState::AssocType => {
                if punct_is(t, '=') {
                    state = ImplState::Idle;
                    out.push(clone_token(t));
                }
            },
        }
        proof {
            let (emitted, st1) = impl_step(tm, st0);
            assert(st1 == state);
            assert(models(out@) =~= before + emitted);
            assert(before + (emitted + strip_impl(ts, i + 1, state)) =~= (before + emitted)
                + strip_impl(ts, i + 1, state));
        }
        i = i + 1;
    }
    assert(models(out@) + seq![] =~= models(out@));
    out
}


// ---------------------------------------------------------------------------
// The struct definition
// ---------------------------------------------------------------------------

/// Where the struct's `struct` keyword stands: the definition runs up to and
/// including the input's first `{ }` group, and the keyword is the first
/// `struct` in it.
pub open spec fn struct_split(ts: Seq<Tok>) -> Result<int, ExpandError> {
    let b = first_brace_group(ts, 0);
    if b >= ts.len() {
        Err(ExpandError::UnexpectedEndOfInput)
    } else {
        let tp = first_ident_named(ts.take(b + 1), 0, "struct"@);
        if tp >= b + 1 {
            Err(ExpandError::StructKeywordNotFound)
        } else {
            Ok(tp)
        }
    }
}

/// The struct's definition: the input up to and including its first `{ }`.
pub open spec fn struct_def(ts: Seq<Tok>) -> Seq<Tok> {
    ts.take(first_brace_group(ts, 0) + 1)
}

/// The struct's definition, and the position of its `struct` keyword.
pub struct Struct {
    pub token_pos: usize,
    pub def: Vec<Token>,
}

/// The index of the first `{ }` group of `tokens`.
fn find_brace_group(tokens: &Vec<Token>) -> (r: usize)
    ensures
        r == first_brace_group(models(tokens@), 0),
{
    let ghost ts = models(tokens@);
    let mut i: usize = 0;
    while i < tokens.len()
        invariant
            0 <= i <= tokens.len(),
            ts == models(tokens@),
            first_brace_group(ts, 0) == first_brace_group(ts, i as int),
        decreases tokens.len() - i,
    {
        assert(ts[i as int] == tokens@[i as int].model());
        if group_is(&tokens[i], Delimiter::Brace) {
            return i;
        }
        i = i + 1;
    }
    i
}

/// The index of the first identifier `name` of `tokens` at or after `from`.
fn find_ident(tokens: &Vec<Token>, from: usize, name: &str) -> (r: usize)
    requires
        from <= tokens.len(),
    ensures
        r == first_ident_named(models(tokens@), from as int, name@),
{
    let ghost ts = models(tokens@);
    let mut i: usize = from;
    while i < tokens.len()
        invariant
            from <= i <= tokens.len(),
            ts == models(tokens@),
            first_ident_named(ts, from as int, name@) == first_ident_named(ts, i as int, name@),
        decreases tokens.len() - i,
    {
        assert(ts[i as int] == tokens@[i as int].model());
        if ident_is(&tokens[i], name) {
            return i;
        }
        i = i + 1;
    }
    i
}

/// The index of the last identifier `name` of `tokens` in `lo .. hi`.
fn find_last_ident(tokens: &Vec<Token>, lo: usize, hi: usize, name: &str) -> (r: Option<usize>)
    requires
        lo <= hi <= tokens.len(),
    ensures
        match r {
            Some(w) => last_ident_named(models(tokens@), lo as int, hi as int, name@) == Some(w as int),
            None => last_ident_named(models(tokens@), lo as int, hi as int, name@) is None,
        },
{
    let ghost ts = models(tokens@);
    let mut i: usize = hi;
    while i > lo
        invariant
            lo <= i <= hi <= tokens.len(),
            ts == models(tokens@),
            last_ident_named(ts, lo as int, hi as int, name@) == last_ident_named(
                ts,
                lo as int,
                i as int,
                name@,
            ),
        decreases i - lo,
    {
        assert(ts[i - 1] == tokens@[i - 1].model());
        if ident_is(&tokens[i - 1], name) {
            return Some(i - 1);
        }
        i = i - 1;
    }
    None
}

impl Struct {
    /// Reads the struct's definition from the start of `tokens`: everything
    /// up to and including the first `{ }` group; or the error for a missing
    /// group or a missing `struct`.
    pub fn try_new(tokens: &Vec<Token>) -> (r: Result<Struct, ExpandError>)
        ensures
            match r {
                Ok(s) => struct_split(models(tokens@)) == Ok::<int, ExpandError>(s.token_pos as int)
                    && models(s.def@) == struct_def(models(tokens@)),
                Err(e) => struct_split(models(tokens@)) == Err::<int, ExpandError>(e),
            },
    {
        let ghost ts = models(tokens@);
        let b = find_brace_group(tokens);
        if b >= tokens.len() {
            return Err(ExpandError::UnexpectedEndOfInput);
        }
        let def = clone_range(tokens, 0, b + 1);
        assert(models(def@) =~= ts.take(b + 1));
        let token_pos = find_ident(&def, 0, "struct");
        if token_pos >= def.len() {
            return Err(ExpandError::StructKeywordNotFound);
        }
        Ok(Struct { token_pos, def })
    }

    /// Reads the struct's definition from the start of `tokens`, which hold
    /// a `{ }` group with `struct` before it: everything up to and including
    /// the first `{ }` group.
    pub fn new(tokens: &Vec<Token>) -> (r: Struct)
        requires
            struct_split(models(tokens@)) is Ok,
        ensures
            struct_split(models(tokens@)) == Ok::<int, ExpandError>(r.token_pos as int),
            models(r.def@) == struct_def(models(tokens@)),
    {
        match Self::try_new(tokens) {
            Ok(st) => st,
            // the precondition rules this branch out
            Err(_) => Struct { token_pos: 0, def: Vec::new() },
        }
    }
}

/// The position of the `where` of the struct's `where` clause, if it has one.
pub open spec fn where_pos(def: Seq<Tok>, tp: int) -> Option<int> {
    last_ident_named(def, tp + 2, def.len() as int, "where"@)
}

/// The struct's name is followed by `<`.
pub open spec fn has_generics(def: Seq<Tok>, tp: int) -> bool {
    is_punct_tok(def[tp + 2], '<')
}

/// Where the generic parameters end: before the `>` that precedes the
/// `where`, or that precedes the struct's body.
pub open spec fn generics_end(def: Seq<Tok>, tp: int) -> int {
    match where_pos(def, tp) {
        Some(w) => w - 1,
        None => def.len() - 2,
    }
}

/// The struct's generic parameters, with the bounds of its `where` clause
/// merged in.
pub open spec fn struct_constraints(def: Seq<Tok>, tp: int) -> Result<Seq<ConstraintView>, ExpandError> {
    let g = has_generics(def, tp);
    if g && generics_end(def, tp) < tp + 3 {
        Err(ExpandError::MalformedGenerics)
    } else {
        match (if g {
            parse_constraints(def, tp + 3, generics_end(def, tp))
        } else {
            Ok(seq![])
        }) {
            Err(e) => Err(e),
            Ok(cs) => match where_pos(def, tp) {
                None => Ok(cs),
                Some(w) => match parse_constraints(def, w + 1, def.len() - 1) {
                    Err(e) => Err(e),
                    Ok(wc) => Ok(merged(cs, wc)),
                },
            },
        }
    }
}

// ---------------------------------------------------------------------------
// The expansion
// ---------------------------------------------------------------------------

/// What the macro expands `ts` to, or why it rejects it.
pub open spec fn expansion(ts: Seq<Tok>) -> Result<Seq<Tok>, ExpandError> {
    match struct_split(ts) {
        Err(e) => Err(e),
        Ok(tp) => {
            let def = struct_def(ts);
            match def[tp + 1] {
                Tok::Ident(name) => if is_raw_name(name) {
                    Err(ExpandError::RawStructName)
                } else {
                    match struct_constraints(def, tp) {
                        Err(e) => Err(e),
                        Ok(cs) => trait_expansion(ts, def, tp, name, cs),
                    }
                },
                _ => Err(ExpandError::ExpectedStructName),
            }
        },
    }
}

/// The expansion once the struct, its name and its parameters are known:
/// the trait is the first `trait` after the struct, followed by its body.
pub open spec fn trait_expansion(
    ts: Seq<Tok>,
    def: Seq<Tok>,
    tp: int,
    name: Seq<char>,
    cs: Seq<ConstraintView>,
) -> Result<Seq<Tok>, ExpandError> {
    let t = first_ident_named(ts, def.len() as int, "trait"@);
    if t + 1 >= ts.len() {
        Err(ExpandError::UnexpectedEndOfInput)
    } else {
        match ts[t + 1] {
            Tok::Group(_, body) => match strip_body(body, 0, BodyState::Idle, cs) {
                Err(e) => Err(e),
                Ok(tb) => Ok(
                    struct_part(def, tp, name) + trait_part(ts, def, t, name, tb) + impl_part(
                        ts,
                        def,
                        tp,
                        name,
                        cs,
                        t,
                        body,
                    ),
                ),
            },
            _ => Err(ExpandError::ExpectedTraitBody),
        }
    }
}

/// The struct, renamed to its name followed by `Concrete`.
pub open spec fn struct_part(def: Seq<Tok>, tp: int, name: Seq<char>) -> Seq<Tok> {
    def.update(tp + 1, Tok::Ident(name + "Concrete"@))
}

/// The trait: what precedes `trait`, then `trait`, the struct's name, and
/// the trait's stripped body in `{ }`.
pub open spec fn trait_part(ts: Seq<Tok>, def: Seq<Tok>, t: int, name: Seq<char>, tb: Seq<Tok>) -> Seq<Tok> {
    ts.subrange(def.len() as int, t) + seq![ts[t], Tok::Ident(name), Tok::Group(Delimiter::Brace, tb)]
}

/// The impl of the trait for the renamed struct: `unsafe` where the trait
/// is, the struct's generic parameters, the parameters as arguments, the
/// `where` clause, and the body with the associated types' bounds left out.
pub open spec fn impl_part(
    ts: Seq<Tok>,
    def: Seq<Tok>,
    tp: int,
    name: Seq<char>,
    cs: Seq<ConstraintView>,
    t: int,
    body: Seq<Tok>,
) -> Seq<Tok> {
    (if t > def.len() && is_ident_tok(ts[t - 1], "unsafe"@) {
        seq![ts[t - 1]]
    } else {
        seq![]
    }) + seq![Tok::Ident("impl"@)] + (if has_generics(def, tp) {
        seq![Tok::Punct('<', Spacing::Alone)] + def.subrange(tp + 3, generics_end(def, tp)) + seq![
            Tok::Punct('>', Spacing::Alone),
        ]
    } else {
        seq![]
    }) + seq![
        Tok::Ident(name),
        Tok::Ident("for"@),
        Tok::Ident(name + "Concrete"@),
        Tok::Punct('<', Spacing::Alone),
    ] + vars_of(cs) + seq![Tok::Punct('>', Spacing::Alone)] + (match where_pos(def, tp) {
        Some(w) => def.subrange(w, def.len() - 1),
        None => seq![],
    }) + seq![Tok::Group(Delimiter::Brace, strip_impl(body, 0, ImplState::Idle))]
}

/// The result of the expansion, as models.
pub open spec fn expansion_models(r: Result<Vec<Token>, ExpandError>) -> Result<Seq<Tok>, ExpandError> {
    match r {
        Ok(v) => Ok(models(v@)),
        Err(e) => Err(e),
    }
}

/// Reads the generic parameters of the struct `def`, whose `struct` keyword
/// stands at `tp`, and merges the bounds of its `where` clause into them.
/// Returns them with whether there are generics, where they end, and where
/// the `where` stands.
fn read_constraints(def: &Vec<Token>, tp: usize) -> (r: Result<
    (TypeConstraints, bool, usize, Option<usize>),
    ExpandError,
>)
    requires
        tp + 2 < def.len(),
        is_group_tok(models(def@)[def.len() - 1], Delimiter::Brace),
    ensures
        match r {
            Ok((cs, g, ge, w)) => {
                &&& struct_constraints(models(def@), tp as int) == Ok::<
                    Seq<ConstraintView>,
                    ExpandError,
                >(cs.model())
                &&& g == has_generics(models(def@), tp as int)
                &&& g ==> tp + 3 <= ge == generics_end(models(def@), tp as int) <= def.len()
                &&& match w {
                    Some(w) => where_pos(models(def@), tp as int) == Some(w as int) && tp + 2 <= w
                        < def.len() - 1,
                    None => where_pos(models(def@), tp as int) is None,
                }
            },
            Err(e) => struct_constraints(models(def@), tp as int) == Err::<
                Seq<ConstraintView>,
                ExpandError,
            >(e),
        },
{
    let ghost dm = models(def@);
    let d = def.len();
    let where_token_pos = find_last_ident(def, tp + 2, d, "where");
    proof {
        lemma_last_ident_named_bounds(dm, tp + 2, d as int, "where"@);
    }
    assert(dm[tp + 2] == def@[tp + 2].model());
    if let Some(w) = where_token_pos {
        assert(w != d - 1);
    }
    let generics = punct_is(&def[tp + 2], '<');
    let e = match where_token_pos {
        Some(w) => w,
        None => d - 1,
    };
    let mut type_constraints = if generics {
        if e <= tp + 3 {
            return Err(ExpandError::MalformedGenerics);
        }
        TypeConstraints::try_new(def, tp + 3, e - 1)?
    } else {
        let empty = TypeConstraints(Vec::new());
        assert(empty.model() =~= seq![]);
        empty
    };
    if let Some(w) = where_token_pos {
        let where_constraints = TypeConstraints::try_new(def, w + 1, d - 1)?;
        type_constraints.merge(where_constraints);
    }
    let ge = if generics { e - 1 } else { 0 };
    Ok((type_constraints, generics, ge, where_token_pos))
}

/// The struct `def`, whose name stands at `tp + 1`, renamed to `renamed`.
fn emit_struct(def: &Vec<Token>, tp: usize, renamed: &String) -> (out: Vec<Token>)
    requires
        tp + 1 < def.len(),
    ensures
        models(out@) == models(def@).update(tp + 1, Tok::Ident(renamed@)),
{
    let ghost dm = models(def@);
    let mut out: Vec<Token> = Vec::new();
    extend_range(&mut out, def, 0, tp + 1);
    push_token(&mut out, Token::Ident(renamed.clone()));
    extend_range(&mut out, def, tp + 2, def.len());
    assert(models(out@) =~= dm.update(tp + 1, Tok::Ident(renamed@)));
    out
}

/// Appends the trait: the tokens of `input` from `d` up to `t`, then the
/// `trait` at `t`, the name, and the body.
fn emit_trait(out: &mut Vec<Token>, input: &Vec<Token>, d: usize, t: usize, name: &String, body: Vec<Token>)
    requires
        d <= t < input.len(),
    ensures
        models(final(out)@) == models(old(out)@) + models(input@).subrange(d as int, t as int) + seq![
            models(input@)[t as int],
            Tok::Ident(name@),
            Tok::Group(Delimiter::Brace, models(body@)),
        ],
{
    let ghost before = models(out@);
    let ghost ts = models(input@);
    extend_range(out, input, d, t);
    push_token(out, clone_token(&input[t]));
    push_token(out, Token::Ident(name.clone()));
    proof {
        crate::token::lemma_group_model(Delimiter::Brace, body);
    }
    push_token(out, Token::Group(Delimiter::Brace, body));
    assert(models(out@) =~= before + ts.subrange(d as int, t as int) + seq![
        ts[t as int],
        Tok::Ident(name@),
        Tok::Group(Delimiter::Brace, models(body@)),
    ]);
}

/// Appends the header of the impl up to its type arguments: `impl`, the
/// struct's generic parameters `def[gs .. ge]` in `< >` if it has any, the
/// trait's name, `for`, and the renamed struct.
fn emit_impl_head(
    out: &mut Vec<Token>,
    def: &Vec<Token>,
    generics: bool,
    gs: usize,
    ge: usize,
    name: &String,
    renamed: &String,
)
    requires
        generics ==> gs <= ge <= def.len(),
    ensures
        models(final(out)@) == models(old(out)@) + seq![Tok::Ident("impl"@)] + (if generics {
            seq![Tok::Punct('<', Spacing::Alone)] + models(def@).subrange(gs as int, ge as int)
                + seq![Tok::Punct('>', Spacing::Alone)]
        } else {
            seq![]
        }) + seq![Tok::Ident(name@), Tok::Ident("for"@), Tok::Ident(renamed@)],
{
    let ghost before = models(out@);
    push_token(out, ident("impl"));
    let ghost mid = models(out@);
    if generics {
        push_token(out, punct('<', Spacing::Alone));
        extend_range(out, def, gs, ge);
        push_token(out, punct('>', Spacing::Alone));
    }
    let ghost gen = models(out@);
    assert(gen =~= mid + (if generics {
        seq![Tok::Punct('<', Spacing::Alone)] + models(def@).subrange(gs as int, ge as int)
            + seq![Tok::Punct('>', Spacing::Alone)]
    } else {
        seq![]
    }));
    push_token(out, Token::Ident(name.clone()));
    push_token(out, ident("for"));
    push_token(out, Token::Ident(renamed.clone()));
    assert(models(out@) =~= gen + seq![Tok::Ident(name@), Tok::Ident("for"@), Tok::Ident(renamed@)]);
}

/// Appends the rest of the impl: the parameters as arguments in `< >`, the
/// `where` clause `def[w .. def.len() - 1]` if there is one, and the body.
fn emit_impl_tail(
    out: &mut Vec<Token>,
    def: &Vec<Token>,
    cs: &TypeConstraints,
    where_token_pos: Option<usize>,
    body: Vec<Token>,
)
    requires
        0 < def.len(),
        where_token_pos matches Some(w) ==> w < def.len(),
    ensures
        models(final(out)@) == models(old(out)@) + seq![Tok::Punct('<', Spacing::Alone)] + vars_of(
            cs.model(),
        ) + seq![Tok::Punct('>', Spacing::Alone)] + (match where_token_pos {
            Some(w) => models(def@).subrange(w as int, def.len() - 1),
            None => seq![],
        }) + seq![Tok::Group(Delimiter::Brace, models(body@))],
{
    let ghost before = models(out@);
    push_token(out, punct('<', Spacing::Alone));
    let vars = cs.vars();
    extend_all(out, &vars);
    push_token(out, punct('>', Spacing::Alone));
    let ghost mid = models(out@);
    if let Some(w) = where_token_pos {
        extend_range(out, def, w, def.len() - 1);
    }
    let ghost wh = models(out@);
    assert(wh =~= mid + (match where_token_pos {
        Some(w) => models(def@).subrange(w as int, def.len() - 1),
        None => seq![],
    }));
    proof {
        crate::token::lemma_group_model(Delimiter::Brace, body);
    }
    push_token(out, Token::Group(Delimiter::Brace, body));
    assert(models(out@) =~= before + seq![Tok::Punct('<', Spacing::Alone)] + vars_of(cs.model())
        + seq![Tok::Punct('>', Spacing::Alone)] + (match where_token_pos {
        Some(w) => models(def@).subrange(w as int, def.len() - 1),
        None => seq![],
    }) + seq![Tok::Group(Delimiter::Brace, models(body@))]);
}

/// Expands a struct definition followed by a nameless trait into the struct
/// renamed to `<Name>Concrete`, the trait named `<Name>` with the bounds
/// of the struct's parameters put in for each `[T]` and the bodies of its
/// functions and values of its associated items left out, and an impl of
/// the trait for the struct that keeps them; or the error for the first
/// part of the input that cannot be read.
#[verifier::rlimit(50)]
pub fn try_abstract_struct(input: &Vec<Token>) -> (r: Result<Vec<Token>, ExpandError>)
    ensures
        expansion_models(r) == expansion(models(input@)),
{
    let ghost ts = models(input@);
    let strct = Struct::try_new(input)?;
    let tp = strct.token_pos;
    let def = &strct.def;
    let d = def.len();
    let ghost dm = models(def@);
    proof {
        lemma_first_brace_group_bounds(ts, 0);
        lemma_first_ident_named_bounds(ts.take(first_brace_group(ts, 0) + 1), 0, "struct"@);
        assert(dm.last() == ts[first_brace_group(ts, 0)]);
        assert(is_group_tok(dm[d - 1], Delimiter::Brace));
        assert(is_ident_tok(dm[tp as int], "struct"@));
    }
    assert(dm[tp + 1] == def@[tp + 1].model());
    let name: String = match &def[tp + 1] {
        Token::Ident(i) => i.clone(),
        _ => {
            return Err(ExpandError::ExpectedStructName);
        },
    };
    if raw_name(&name) {
        return Err(ExpandError::RawStructName);
    }
    let renamed = name.clone().concat("Concrete");
    let (type_constraints, generics, ge, where_token_pos) = read_constraints(def, tp)?;
    let ghost cs = type_constraints.model();

    let t = find_ident(input, d, "trait");
    proof {
        lemma_first_ident_named_bounds(ts, d as int, "trait"@);
    }
    if t >= input.len() || t + 1 >= input.len() {
        return Err(ExpandError::UnexpectedEndOfInput);
    }
    assert(ts[t + 1] == input@[t + 1].model());
    let body = match &input[t + 1] {
        Token::Group(_, b) => b,
        _ => {
            return Err(ExpandError::ExpectedTraitBody);
        },
    };
    proof {
        if let Token::Group(dl, b) = input@[t + 1] {
            crate::token::lemma_group_model(dl, b);
        }
    }
    let ghost bm = models(body@);
    let trait_body = try_strip_trait_body(body, &type_constraints)?;
    let ghost tbm = models(trait_body@);
    let impl_body = strip_trait_impl_body(body);
    let ghost ibm = models(impl_body@);

    let mut out = emit_struct(def, tp, &renamed);
    let ghost part1 = models(out@);
    emit_trait(&mut out, input, d, t, &name, trait_body);
    let ghost part2 = models(out@);
    assert(part2 =~= part1 + trait_part(ts, dm, t as int, name@, tbm));
    if t > d {
        assert(ts[t - 1] == input@[t - 1].model());
        if ident_is(&input[t - 1], "unsafe") {
            push_token(&mut out, clone_token(&input[t - 1]));
        }
    }
    let ghost part3 = models(out@);
    emit_impl_head(&mut out, def, generics, tp + 3, ge, &name, &renamed);
    emit_impl_tail(&mut out, def, &type_constraints, where_token_pos, impl_body);
    assert(models(out@) =~= part2 + impl_part(ts, dm, tp as int, name@, cs, t as int, bm));
    Ok(out)
}

/// Expands a struct definition followed by a nameless trait, which can be
/// read as such, into the struct renamed to `<Name>Concrete`, the trait
/// named `<Name>` with the bounds of the struct's parameters put in for each
/// `[T]` and the bodies of its functions and values of its associated items
/// left out, and an impl of the trait for the struct that keeps them.
pub fn abstract_struct(input: &Vec<Token>) -> (r: Vec<Token>)
    requires
        expansion(models(input@)) is Ok,
    ensures
        expansion(models(input@)) == Ok::<Seq<Tok>, ExpandError>(models(r@)),
{
    match try_abstract_struct(input) {
        Ok(v) => v,
        // the precondition rules this branch out
        Err(_) => Vec::new(),
    }
}

} // verus!
