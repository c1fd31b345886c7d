//! Properties of the macro that hold for every input.
use vstd::prelude::*;
use crate::token::{Delimiter, Spacing, Tok, is_ident_tok, is_punct_tok};
use crate::function_like::{
    BodyState, ConstraintView, ExpandError, ImplState, body_step, expansion, first_brace_group,
    impl_step, parse_constraints, parse_entry, prepend_body, vars_of, var_tokens,
    first_ident_named, first_named, lemma_first_brace_group_bounds, lemma_first_ident_named_bounds,
    merged, scan_type, strip_body, strip_impl, struct_constraints, struct_def, struct_part,
    struct_split, trait_part, impl_part,
};
use crate::attribute::{
    ArgsError, ParamView, ShapeView, alone, assoc_args, wrap_impl, assoc_decls, assoc_impls, from_impl,
    lifetime_args, lifetimes_decl, trait_decl, trait_impl,
    trait_name, word, wrap_method_name,
};

verus! {

/// Reading a type returns the tokens it passed over, unchanged and in
/// order: all tokens up to `end`, or those before the separator, which is
/// then the last token consumed.
pub proof fn law_scan_type_is_a_slice(ts: Seq<Tok>, pos: int, end: int, nesting: nat, ender: char)
    requires
        0 <= pos <= end <= ts.len(),
    ensures
        scan_type(ts, pos, end, nesting, ender) matches Ok((s, q)) ==> {
            ||| q == end && s == ts.subrange(pos, end)
            ||| pos < q <= end && s == ts.subrange(pos, q - 1) && is_punct_tok(ts[q - 1], ender)
        },
    decreases end - pos,
{
    if pos < end {
        let t = ts[pos];
        let next_nesting: nat = if is_punct_tok(t, '>') {
            if nesting == 0 {
                0
            } else {
                (nesting - 1) as nat
            }
        } else if is_punct_tok(t, '<') {
            nesting + 1
        } else {
            nesting
        };
        if is_punct_tok(t, '>') && nesting == 0 {
        } else if !is_punct_tok(t, '>') && !is_punct_tok(t, '<') && is_punct_tok(t, ender) && nesting
            == 0 {
            assert(ts.subrange(pos, pos) =~= seq![]);
        } else {
            law_scan_type_is_a_slice(ts, pos + 1, end, next_nesting, ender);
            if let Ok((s, q)) = scan_type(ts, pos + 1, end, next_nesting, ender) {
                if q == end && s == ts.subrange(pos + 1, end) {
                    assert(seq![t] + s =~= ts.subrange(pos, end));
                } else {
                    assert(seq![t] + s =~= ts.subrange(pos, q - 1));
                }
            }
        }
    } else {
        assert(ts.subrange(pos, end) =~= seq![]);
    }
}

/// The function-like expansion starts with the struct definition as
/// written but renamed to its name followed by `Concrete`; the trait that
/// follows, up to its body, is the input's, named with the struct's name.
pub proof fn law_struct_renamed_trait_named(ts: Seq<Tok>)
    ensures
        expansion(ts) matches Ok(out) ==> struct_split(ts) matches Ok(tp) && struct_def(
            ts,
        )[tp + 1] matches Tok::Ident(name) && {
            let def = struct_def(ts);
            let t = first_ident_named(ts, def.len() as int, "trait"@);
            &&& out.subrange(0, def.len() as int) == def.update(tp + 1, Tok::Ident(name + "Concrete"@))
            &&& out.subrange(def.len() as int, t + 1) == ts.subrange(def.len() as int, t + 1)
            &&& out[t + 1] == Tok::Ident(name)
        },
{
    if let Ok(out) = expansion(ts) {
        let tp = struct_split(ts).unwrap();
        let def = struct_def(ts);
        lemma_first_brace_group_bounds(ts, 0);
        lemma_first_ident_named_bounds(def, 0, "struct"@);
        lemma_first_ident_named_bounds(ts, def.len() as int, "trait"@);
        assert(def.last() == ts[first_brace_group(ts, 0)]);
        let name = def[tp + 1]->Ident_0;
        let cs = struct_constraints(def, tp).unwrap();
        let t = first_ident_named(ts, def.len() as int, "trait"@);
        let body = ts[t + 1]->Group_1;
        let tb = strip_body(body, 0, BodyState::Idle, cs).unwrap();
        let sp = struct_part(def, tp, name);
        let trp = trait_part(ts, def, t, name, tb);
        assert(out == sp + trp + impl_part(ts, def, tp, name, cs, t, body));
        assert(sp.len() == def.len());
        assert(out.subrange(0, def.len() as int) =~= sp);
        assert(out.subrange(def.len() as int, t + 1) =~= ts.subrange(def.len() as int, t + 1));
    }
}

/// Merging the bounds of a `where` clause keeps the parameters: as many,
/// in the same order, with the same names and kinds.
pub proof fn law_merge_keeps_parameters(cs: Seq<ConstraintView>, other: Seq<ConstraintView>)
    ensures
        merged(cs, other).len() == cs.len(),
        forall|i: int|
            0 <= i < cs.len() ==> (#[trigger] merged(cs, other)[i]).name == cs[i].name
                && merged(cs, other)[i].is_lifetime == cs[i].is_lifetime,
{
}

/// A `where` clause that bounds no parameter of the struct changes nothing.
pub proof fn law_merge_unrelated_is_identity(cs: Seq<ConstraintView>, other: Seq<ConstraintView>)
    requires
        forall|i: int, k: int| 0 <= i < cs.len() && 0 <= k < other.len() ==> cs[i].name != other[k].name,
    ensures
        merged(cs, other) == cs,
{
    assert forall|i: int| 0 <= i < cs.len() implies first_named(other, cs[i].name, 0) is None by {
        lemma_first_named_absent(other, cs[i].name, 0);
    }
    assert(merged(cs, other) =~= cs);
}

proof fn lemma_first_named_absent(cs: Seq<ConstraintView>, name: Seq<char>, from: int)
    requires
        0 <= from,
        forall|k: int| 0 <= k < cs.len() ==> cs[k].name != name,
    ensures
        first_named(cs, name, from) is None,
    decreases cs.len() - from,
{
    if from < cs.len() {
        lemma_first_named_absent(cs, name, from + 1);
    }
}

/// The body of the impl keeps every token of a trait body that declares no
/// associated type: function bodies, constants and all.
pub proof fn law_impl_body_without_types_is_unchanged(ts: Seq<Tok>)
    requires
        forall|i: int| 0 <= i < ts.len() ==> !is_ident_tok(#[trigger] ts[i], "type"@),
    ensures
        strip_impl(ts, 0, ImplState::Idle) == ts,
{
    lemma_strip_impl_idle(ts, 0);
    assert(ts.subrange(0, ts.len() as int) =~= ts);
}

proof fn lemma_strip_impl_idle(ts: Seq<Tok>, i: int)
    requires
        0 <= i <= ts.len(),
        forall|j: int| 0 <= j < ts.len() ==> !is_ident_tok(#[trigger] ts[j], "type"@),
    ensures
        strip_impl(ts, i, ImplState::Idle) == ts.subrange(i, ts.len() as int),
    decreases ts.len() - i,
{
    if i < ts.len() {
        lemma_strip_impl_idle(ts, i + 1);
        assert(seq![ts[i]] + ts.subrange(i + 1, ts.len() as int) =~= ts.subrange(i, ts.len() as int));
    } else {
        assert(ts.subrange(i, ts.len() as int) =~= seq![]);
    }
}

/// The trait keeps, unchanged, a body that holds no `type`, `const` or
/// `fn`.
pub proof fn law_trait_body_without_items_is_unchanged(ts: Seq<Tok>, cs: Seq<ConstraintView>)
    requires
        forall|i: int|
            0 <= i < ts.len() ==> !is_ident_tok(#[trigger] ts[i], "type"@) && !is_ident_tok(
                ts[i],
                "const"@,
            ) && !is_ident_tok(ts[i], "fn"@),
    ensures
        strip_body(ts, 0, BodyState::Idle, cs) == Ok::<Seq<Tok>, ExpandError>(ts),
{
    lemma_strip_body_idle(ts, cs, 0);
    assert(ts.subrange(0, ts.len() as int) =~= ts);
}

proof fn lemma_strip_body_idle(ts: Seq<Tok>, cs: Seq<ConstraintView>, i: int)
    requires
        0 <= i <= ts.len(),
        forall|j: int|
            0 <= j < ts.len() ==> !is_ident_tok(#[trigger] ts[j], "type"@) && !is_ident_tok(
                ts[j],
                "const"@,
            ) && !is_ident_tok(ts[j], "fn"@),
    ensures
        strip_body(ts, i, BodyState::Idle, cs) == Ok::<Seq<Tok>, ExpandError>(
            ts.subrange(i, ts.len() as int),
        ),
    decreases ts.len() - i,
{
    if i < ts.len() {
        lemma_strip_body_idle(ts, cs, i + 1);
        assert(seq![ts[i]] + ts.subrange(i + 1, ts.len() as int) =~= ts.subrange(i, ts.len() as int));
    } else {
        assert(ts.subrange(i, ts.len() as int) =~= seq![]);
    }
}

/// The parameters `cs` with their bounds left out: names and kinds only.
pub open spec fn without_bounds(cs: Seq<ConstraintView>) -> Seq<ConstraintView> {
    cs.map_values(|c: ConstraintView| ConstraintView { is_lifetime: c.is_lifetime, name: c.name, def: seq![] })
}

/// Reading back the parameters as a list of arguments gives them again, in
/// the same order, with the same names and kinds, and without bounds.
pub proof fn law_vars_read_back(cs: Seq<ConstraintView>)
    ensures
        parse_constraints(vars_of(cs), 0, vars_of(cs).len() as int) == Ok::<
            Seq<ConstraintView>,
            ExpandError,
        >(without_bounds(cs)),
{
    lemma_vars_read_back_from(cs, 0);
    assert(cs.take(0) =~= seq![]);
    assert(vars_of(cs.take(0)) =~= seq![]);
    assert(cs.skip(0) =~= cs);
}

/// The tokens of the arguments of `a + b` are those of `a`, then those of `b`.
pub proof fn lemma_vars_of_concat(a: Seq<ConstraintView>, b: Seq<ConstraintView>)
    ensures
        vars_of(a + b) == vars_of(a) + vars_of(b),
    decreases b.len(),
{
    if b.len() == 0 {
        assert(a + b =~= a);
        assert(vars_of(a) + seq![] =~= vars_of(a));
    } else {
        lemma_vars_of_concat(a, b.drop_last());
        assert((a + b).drop_last() =~= a + b.drop_last());
        assert((a + b).last() == b.last());
        assert(vars_of(a) + (vars_of(b.drop_last()) + var_tokens(b.last())) =~= (vars_of(a) + vars_of(
            b.drop_last(),
        )) + var_tokens(b.last()));
    }
}

/// Reading the arguments from those of the `j`-th parameter on gives the
/// parameters from the `j`-th on, without bounds.
pub proof fn lemma_vars_read_back_from(cs: Seq<ConstraintView>, j: int)
    requires
        0 <= j <= cs.len(),
    ensures
        parse_constraints(vars_of(cs), vars_of(cs.take(j)).len() as int, vars_of(cs).len() as int)
            == Ok::<Seq<ConstraintView>, ExpandError>(without_bounds(cs.skip(j))),
    decreases cs.len() - j,
{
    let ts = vars_of(cs);
    let end = ts.len() as int;
    if j == cs.len() {
        assert(cs.take(j) =~= cs);
        assert(without_bounds(cs.skip(j)) =~= seq![]);
    } else {
        let pre = vars_of(cs.take(j));
        let c = cs[j];
        let vt = var_tokens(c);
        assert(cs.take(j + 1).drop_last() =~= cs.take(j));
        assert(cs.take(j + 1).last() == c);
        assert(vars_of(cs.take(j + 1)) == pre + vt);
        assert(cs =~= cs.take(j + 1) + cs.skip(j + 1));
        lemma_vars_of_concat(cs.take(j + 1), cs.skip(j + 1));
        assert(ts == pre + vt + vars_of(cs.skip(j + 1)));
        let pos = pre.len() as int;
        assert forall|k: int| 0 <= k < vt.len() implies ts[pos + k] == vt[k] by {
            assert((pre + vt + vars_of(cs.skip(j + 1)))[pos + k] == vt[k]);
        }
        let bare = ConstraintView { is_lifetime: c.is_lifetime, name: c.name, def: seq![] };
        if c.is_lifetime {
            assert(ts[pos] == vt[0]);
            assert(ts[pos + 1] == vt[1]);
            assert(ts[pos + 2] == vt[2]);
        } else {
            assert(ts[pos] == vt[0]);
            assert(ts[pos + 1] == vt[1]);
        }
        assert(parse_entry(ts, pos, end) == Ok::<(Option<ConstraintView>, int), ExpandError>(
            (Some(bare), pos + vt.len()),
        ));
        lemma_vars_read_back_from(cs, j + 1);
        assert(without_bounds(cs.skip(j)) =~= seq![bare] + without_bounds(cs.skip(j + 1)));
    }
}

/// The state in which the trait's body is left after reading it from token
/// `i` in state `st`.
pub open spec fn body_end(ts: Seq<Tok>, i: int, st: BodyState, cs: Seq<ConstraintView>) -> BodyState
    decreases ts.len() - i,
{
    if i >= ts.len() {
        st
    } else {
        match body_step(ts[i], st, cs) {
            Err(_) => st,
            Ok((_, st2)) => body_end(ts, i + 1, st2, cs),
        }
    }
}

/// The items `items` of a trait's body, each stripped on its own from the
/// idle state, concatenated; the first error, if any.
pub open spec fn strip_items(items: Seq<Seq<Tok>>, cs: Seq<ConstraintView>) -> Result<
    Seq<Tok>,
    ExpandError,
>
    decreases items.len(),
{
    if items.len() == 0 {
        Ok(seq![])
    } else {
        match strip_body(items[0], 0, BodyState::Idle, cs) {
            Err(e) => Err(e),
            Ok(x) => prepend_body(x, strip_items(items.drop_first(), cs)),
        }
    }
}

/// The items of a trait's body are stripped independently of each other:
/// where each item, read from the idle state, leaves the reader idle again
/// (a function with its body, an associated item up to its `;`, or any
/// other token), the body is stripped item by item.
pub proof fn law_trait_items_stripped_independently(items: Seq<Seq<Tok>>, cs: Seq<ConstraintView>)
    requires
        forall|j: int|
            0 <= j < items.len() ==> body_end(#[trigger] items[j], 0, BodyState::Idle, cs)
                == BodyState::Idle,
    ensures
        strip_body(items.flatten(), 0, BodyState::Idle, cs) == strip_items(items, cs),
    decreases items.len(),
{
    if items.len() == 0 {
    } else {
        let rest = items.drop_first();
        assert forall|j: int| 0 <= j < rest.len() implies body_end(
            #[trigger] rest[j],
            0,
            BodyState::Idle,
            cs,
        ) == BodyState::Idle by {
            assert(rest[j] == items[j + 1]);
        }
        law_trait_items_stripped_independently(rest, cs);
        assert(body_end(items[0], 0, BodyState::Idle, cs) == BodyState::Idle);
        lemma_strip_body_concat(items[0], rest.flatten(), 0, BodyState::Idle, cs);
        assert(items.flatten() == items[0] + rest.flatten());
    }
}

/// Reading the trait's body after a prefix `p` is reading it on its own.
pub proof fn lemma_strip_body_shift(p: Seq<Tok>, b: Seq<Tok>, k: int, st: BodyState, cs: Seq<ConstraintView>)
    requires
        0 <= k <= b.len(),
    ensures
        strip_body(p + b, p.len() + k, st, cs) == strip_body(b, k, st, cs),
    decreases b.len() - k,
{
    if k < b.len() {
        assert((p + b)[p.len() + k] == b[k]);
        if let Ok((_, st2)) = body_step(b[k], st, cs) {
            lemma_strip_body_shift(p, b, k + 1, st2, cs);
        }
    }
}

/// Reading `a + b` is reading `a`, then reading `b` in the state that `a`
/// leaves.
pub proof fn lemma_strip_body_concat(a: Seq<Tok>, b: Seq<Tok>, i: int, st: BodyState, cs: Seq<ConstraintView>)
    requires
        0 <= i <= a.len(),
    ensures
        strip_body(a + b, i, st, cs) == match strip_body(a, i, st, cs) {
            Err(e) => Err(e),
            Ok(x) => prepend_body(x, strip_body(b, 0, body_end(a, i, st, cs), cs)),
        },
    decreases a.len() - i,
{
    if i < a.len() {
        assert((a + b)[i] == a[i]);
        if let Ok((o, st2)) = body_step(a[i], st, cs) {
            lemma_strip_body_concat(a, b, i + 1, st2, cs);
            if let Ok(x) = strip_body(a, i + 1, st2, cs) {
                if let Ok(y) = strip_body(b, 0, body_end(a, i + 1, st2, cs), cs) {
                    assert(o + (x + y) =~= (o + x) + y);
                }
            }
        }
    } else {
        lemma_strip_body_shift(a, b, 0, st, cs);
        if let Ok(y) = strip_body(b, 0, st, cs) {
            assert(seq![] + y =~= y);
        }
    }
}

/// Stripping the impl's body a second time changes nothing.
pub proof fn law_strip_impl_is_idempotent(ts: Seq<Tok>)
    ensures
        strip_impl(strip_impl(ts, 0, ImplState::Idle), 0, ImplState::Idle) == strip_impl(
            ts,
            0,
            ImplState::Idle,
        ),
{
    lemma_strip_impl_again(ts, 0, ImplState::Idle);
}

/// Reading the impl's body after a prefix `p` is reading it on its own.
pub proof fn lemma_strip_impl_shift(p: Seq<Tok>, b: Seq<Tok>, k: int, st: ImplState)
    requires
        0 <= k <= b.len(),
    ensures
        strip_impl(p + b, p.len() + k, st) == strip_impl(b, k, st),
    decreases b.len() - k,
{
    if k < b.len() {
        assert((p + b)[p.len() + k] == b[k]);
        lemma_strip_impl_shift(p, b, k + 1, impl_step(b[k], st).1);
    }
}

/// What reading from token `i` in state `st` gives is read again, from the
/// same state, unchanged.
pub proof fn lemma_strip_impl_again(ts: Seq<Tok>, i: int, st: ImplState)
    requires
        0 <= i <= ts.len(),
    ensures
        strip_impl(strip_impl(ts, i, st), 0, st) == strip_impl(ts, i, st),
    decreases ts.len() - i,
{
    if i < ts.len() {
        let o = impl_step(ts[i], st).0;
        let st2 = impl_step(ts[i], st).1;
        let r = strip_impl(ts, i + 1, st2);
        lemma_strip_impl_again(ts, i + 1, st2);
        if o.len() == 0 {
            assert(o + r =~= r);
        } else {
            lemma_strip_impl_shift(o, r, 0, st2);
            assert((o + r)[0] == ts[i]);
        }
    }
}

/// `wrap = name` names the wrap method `name`, whatever follows.
pub proof fn law_wrap_names_the_method(name: Seq<char>, sp: Spacing, rest: Seq<Tok>)
    ensures
        wrap_method_name(
            seq![Tok::Ident("wrap"@), Tok::Punct('=', sp), Tok::Ident(name)] + rest,
        ) == Ok::<Option<Seq<char>>, ArgsError>(Some(name)),
{
    let args = seq![Tok::Ident("wrap"@), Tok::Punct('=', sp), Tok::Ident(name)] + rest;
    assert(args[0] == Tok::Ident("wrap"@));
    assert(args[1] == Tok::Punct('=', sp));
    assert(args[2] == Tok::Ident(name));
    assert("wrap"@ != "nowrap"@) by {
        reveal_strlit("wrap");
        reveal_strlit("nowrap");
        assert("wrap"@.len() != "nowrap"@.len());
    }
}

/// `nowrap` alone asks for no wrap method, and is the only argument that
/// does.
pub proof fn law_nowrap_is_the_only_way_to_no_method(args: Seq<Tok>)
    ensures
        wrap_method_name(args) == Ok::<Option<Seq<char>>, ArgsError>(None) <==> args == seq![
            Tok::Ident("nowrap"@),
        ],
{
    if args == seq![Tok::Ident("nowrap"@)] {
        assert(args[0] == Tok::Ident("nowrap"@));
    }
    if wrap_method_name(args) == Ok::<Option<Seq<char>>, ArgsError>(None) {
        assert(args.len() == 1);
        assert(args =~= seq![Tok::Ident("nowrap"@)]);
    }
}

/// The attribute keeps the struct as it was written, ahead of all it adds.
pub proof fn law_struct_is_kept(wrap: Option<Seq<char>>, sh: ShapeView)
    ensures
        crate::attribute::expansion(wrap, sh).subrange(0, sh.item.len() as int) == sh.item,
{
    assert(crate::attribute::expansion(wrap, sh).subrange(0, sh.item.len() as int) =~= sh.item);
}

/// The trait has the struct's visibility and is named after the struct
/// with `Abstract` appended.
pub proof fn law_trait_visibility_and_name(sh: ShapeView)
    ensures
        trait_decl(sh).subrange(0, sh.vis.len() + 2int) == sh.vis + seq![
            word("trait"@),
            word(sh.ident + "Abstract"@),
        ],
        trait_name(sh) == sh.ident + "Abstract"@,
{
    let head = sh.vis + seq![word("trait"@), word(sh.ident + "Abstract"@)];
    assert(trait_decl(sh).subrange(0, head.len() as int) =~= head);
}

/// Without a wrap method the expansion is the struct, the `From` impl, the
/// trait and its impl; a wrap method adds only its own impl.
pub proof fn law_nowrap_drops_only_the_method(sh: ShapeView)
    ensures
        crate::attribute::expansion(None, sh) == sh.item + from_impl(sh) + trait_decl(sh) + trait_impl(
            sh,
        ),
{
    assert(crate::attribute::expansion(None, sh) =~= sh.item + from_impl(sh) + trait_decl(sh)
        + trait_impl(sh));
}

// ---------------------------------------------------------------------------
// Reading a type counts angle brackets
// ---------------------------------------------------------------------------

/// How token `t` changes the number of open `<`.
pub open spec fn angle_step(t: Tok) -> int {
    if is_punct_tok(t, '<') {
        1
    } else if is_punct_tok(t, '>') {
        -1
    } else {
        0
    }
}

/// The number of `<` in `s` less the number of `>`.
pub open spec fn angle_depth(s: Seq<Tok>) -> int
    decreases s.len(),
{
    if s.len() == 0 {
        0
    } else {
        angle_depth(s.drop_last()) + angle_step(s.last())
    }
}

/// A type whose `<` and `>` are balanced at every prefix (no `>` closes
/// more than was opened) is read whole: up to the first `ender` outside
/// any `< >`, or to the end. Nested generics such as `From<Vec<u8>>` are
/// read as one type.
pub proof fn law_scan_type_balanced(ts: Seq<Tok>, pos: int, q: int, end: int, ender: char)
    requires
        0 <= pos <= q <= end <= ts.len(),
        ender != '<' && ender != '>',
        forall|j: int| pos < j <= q ==> angle_depth(#[trigger] ts.subrange(pos, j)) >= 0,
        forall|j: int|
            pos <= j < q && is_punct_tok(ts[j], ender) ==> angle_depth(#[trigger] ts.subrange(pos, j)) > 0,
        q == end || (is_punct_tok(ts[q], ender) && angle_depth(ts.subrange(pos, q)) == 0),
    ensures
        scan_type(ts, pos, end, 0, ender) == Ok::<(Seq<Tok>, int), ExpandError>(
            (ts.subrange(pos, q), if q == end { end } else { q + 1 }),
        ),
{
    assert(ts.subrange(pos, pos) =~= seq![]);
    lemma_scan_type_balanced_from(ts, pos, pos, q, end, ender);
}

/// `law_scan_type_balanced`, from position `i` on, with the `<` that the
/// tokens from `pos` left open.
pub proof fn lemma_scan_type_balanced_from(ts: Seq<Tok>, pos: int, i: int, q: int, end: int, ender: char)
    requires
        0 <= pos <= i <= q <= end <= ts.len(),
        ender != '<' && ender != '>',
        angle_depth(ts.subrange(pos, i)) >= 0,
        forall|j: int| pos < j <= q ==> angle_depth(#[trigger] ts.subrange(pos, j)) >= 0,
        forall|j: int|
            pos <= j < q && is_punct_tok(ts[j], ender) ==> angle_depth(#[trigger] ts.subrange(pos, j)) > 0,
        q == end || (is_punct_tok(ts[q], ender) && angle_depth(ts.subrange(pos, q)) == 0),
    ensures
        scan_type(ts, i, end, angle_depth(ts.subrange(pos, i)) as nat, ender) == Ok::<
            (Seq<Tok>, int),
            ExpandError,
        >((ts.subrange(i, q), if q == end { end } else { q + 1 })),
    decreases q - i,
{
    let n = angle_depth(ts.subrange(pos, i));
    if i < q {
        let t = ts[i];
        assert(ts.subrange(pos, i + 1).drop_last() =~= ts.subrange(pos, i));
        assert(ts.subrange(pos, i + 1).last() == t);
        assert(angle_depth(ts.subrange(pos, i + 1)) == n + angle_step(t));
        assert(angle_depth(ts.subrange(pos, i + 1)) >= 0);
        lemma_scan_type_balanced_from(ts, pos, i + 1, q, end, ender);
        assert(seq![t] + ts.subrange(i + 1, q) =~= ts.subrange(i, q));
        if is_punct_tok(t, '>') {
            assert(n >= 1);
            assert(((n as nat) - 1) as nat == (n + angle_step(t)) as nat);
        } else if is_punct_tok(t, '<') {
            assert((n as nat) + 1 == (n + angle_step(t)) as nat);
        } else {
            if is_punct_tok(t, ender) {
                assert(n > 0);
            }
            assert(n as nat == (n + angle_step(t)) as nat);
        }
    } else {
        assert(ts.subrange(i, q) =~= seq![]);
        if q != end {
            assert(!is_punct_tok(ts[q], '>') && !is_punct_tok(ts[q], '<'));
        }
    }
}

// ---------------------------------------------------------------------------
// Lifetimes as arguments
// ---------------------------------------------------------------------------

/// Lifetime `l` as an argument: its attributes and its name, then a comma.
pub open spec fn lifetime_arg(l: ParamView) -> Seq<Tok> {
    l.attrs + l.name + seq![alone(',')]
}

/// The lifetimes as arguments are, in order, each lifetime's attributes and
/// name followed by a comma: no bound of a lifetime (`'b: 'a`) is among
/// them.
pub proof fn law_lifetime_args_are_names(ls: Seq<ParamView>)
    ensures
        lifetime_args(ls) == Seq::new(ls.len(), |i: int| lifetime_arg(ls[i])).flatten(),
    decreases ls.len(),
{
    let pieces = Seq::new(ls.len(), |i: int| lifetime_arg(ls[i]));
    pieces.lemma_flatten_and_flatten_alt_are_equivalent();
    if ls.len() > 0 {
        law_lifetime_args_are_names(ls.drop_last());
        let prev = Seq::new(ls.drop_last().len(), |i: int| lifetime_arg(ls.drop_last()[i]));
        prev.lemma_flatten_and_flatten_alt_are_equivalent();
        assert(pieces.drop_last() =~= prev);
        assert(pieces.last() == lifetime_arg(ls.last()));
        assert(lifetime_args(ls) =~= prev.flatten_alt() + pieces.last());
    } else {
        assert(pieces =~= Seq::<Seq<Tok>>::empty());
    }
}

/// Lifetimes with the same attributes and names give the same arguments,
/// whatever their bounds.
pub proof fn law_lifetime_args_ignore_bounds(ls: Seq<ParamView>, other: Seq<ParamView>)
    requires
        ls.len() == other.len(),
        forall|i: int| 0 <= i < ls.len() ==> #[trigger] ls[i].attrs == other[i].attrs && ls[i].name == other[i].name,
    ensures
        lifetime_args(ls) == lifetime_args(other),
{
    law_lifetime_args_are_names(ls);
    law_lifetime_args_are_names(other);
    assert(Seq::new(ls.len(), |i: int| lifetime_arg(ls[i])) =~= Seq::new(
        other.len(),
        |i: int| lifetime_arg(other[i]),
    ));
}

// ---------------------------------------------------------------------------
// Merging goes by name
// ---------------------------------------------------------------------------

/// Parameter `i` takes the bounds of the first `where` entry with its name,
/// wherever that entry stands, unless an earlier parameter has the same
/// name: they follow its own bounds after a `+`, or stand alone if it has
/// none.
pub proof fn law_merge_by_name(cs: Seq<ConstraintView>, other: Seq<ConstraintView>, i: int, k: int)
    requires
        0 <= i < cs.len(),
        0 <= k < other.len(),
        other[k].name == cs[i].name,
        forall|k2: int| 0 <= k2 < k ==> other[k2].name != cs[i].name,
        forall|j: int| 0 <= j < i ==> cs[j].name != cs[i].name,
    ensures
        merged(cs, other)[i] == (ConstraintView {
            is_lifetime: cs[i].is_lifetime,
            name: cs[i].name,
            def: if cs[i].def.len() == 0 {
                other[k].def
            } else {
                cs[i].def + seq![Tok::Punct('+', Spacing::Alone)] + other[k].def
            },
        }),
{
    lemma_first_named_is(other, cs[i].name, 0, k);
}

/// A parameter that no `where` entry names keeps its bounds.
pub proof fn law_merge_without_partner(cs: Seq<ConstraintView>, other: Seq<ConstraintView>, i: int)
    requires
        0 <= i < cs.len(),
        forall|k: int| 0 <= k < other.len() ==> other[k].name != cs[i].name,
    ensures
        merged(cs, other)[i] == cs[i],
{
    lemma_first_named_absent(other, cs[i].name, 0);
}

/// The first entry named `name` from `from` on is `k`, where `k` has that
/// name and none between `from` and `k` has.
pub proof fn lemma_first_named_is(cs: Seq<ConstraintView>, name: Seq<char>, from: int, k: int)
    requires
        0 <= from <= k < cs.len(),
        cs[k].name == name,
        forall|k2: int| from <= k2 < k ==> cs[k2].name != name,
    ensures
        first_named(cs, name, from) == Some(k),
    decreases k - from,
{
    if from < k {
        lemma_first_named_is(cs, name, from + 1, k);
    }
}

// ---------------------------------------------------------------------------
// An unsafe trait gets an unsafe impl
// ---------------------------------------------------------------------------

/// In the function-like expansion the impl follows the trait at once; it
/// is `unsafe impl` exactly when the trait is declared `unsafe trait`,
/// whatever stands before `unsafe`.
pub proof fn law_unsafe_trait_unsafe_impl(ts: Seq<Tok>)
    ensures
        expansion(ts) matches Ok(out) ==> {
            let d = struct_def(ts).len() as int;
            let t = first_ident_named(ts, d, "trait"@);
            if t > d && is_ident_tok(ts[t - 1], "unsafe"@) {
                out[t + 3] == Tok::Ident("unsafe"@) && out[t + 4] == Tok::Ident("impl"@)
            } else {
                out[t + 3] == Tok::Ident("impl"@)
            }
        },
{
    if let Ok(out) = expansion(ts) {
        let tp = struct_split(ts).unwrap();
        let def = struct_def(ts);
        lemma_first_brace_group_bounds(ts, 0);
        lemma_first_ident_named_bounds(def, 0, "struct"@);
        lemma_first_ident_named_bounds(ts, def.len() as int, "trait"@);
        let name = def[tp + 1]->Ident_0;
        let cs = struct_constraints(def, tp).unwrap();
        let t = first_ident_named(ts, def.len() as int, "trait"@);
        let body = ts[t + 1]->Group_1;
        let tb = strip_body(body, 0, BodyState::Idle, cs).unwrap();
        let sp = struct_part(def, tp, name);
        let trp = trait_part(ts, def, t, name, tb);
        let ip = impl_part(ts, def, tp, name, cs, t, body);
        assert(out == sp + trp + ip);
        assert(sp.len() == def.len());
        assert(trp.len() == t - def.len() + 3);
        assert(out[t + 3] == ip[0]);
        if t > def.len() && is_ident_tok(ts[t - 1], "unsafe"@) {
            assert(out[t + 4] == ip[1]);
        }
    }
}

// ---------------------------------------------------------------------------
// An associated item of the trait
// ---------------------------------------------------------------------------

/// Token `t` of an associated item's bounds names a parameter of `cs` if
/// it is a `[ ]` group: it starts with the name of one.
pub open spec fn valid_placeholder(t: Tok, cs: Seq<ConstraintView>) -> bool {
    match t {
        Tok::Group(Delimiter::Bracket, inner) => inner.len() > 0 && inner[0] is Ident && first_named(
            cs,
            inner[0]->Ident_0,
            0,
        ) is Some,
        _ => true,
    }
}

/// What token `t` of an associated item's bounds stands for in the trait:
/// a `[T]` stands for the bounds of the struct's parameter `T`, any other
/// token for itself.
pub open spec fn bound_piece(t: Tok, cs: Seq<ConstraintView>) -> Seq<Tok> {
    match t {
        Tok::Group(Delimiter::Bracket, inner) => cs[first_named(cs, inner[0]->Ident_0, 0)->0].def,
        _ => seq![t],
    }
}

/// The bounds `ks` of an associated item with each `[T]` put in for.
pub open spec fn substituted(ks: Seq<Tok>, cs: Seq<ConstraintView>) -> Seq<Tok>
    decreases ks.len(),
{
    if ks.len() == 0 {
        seq![]
    } else {
        bound_piece(ks[0], cs) + substituted(ks.drop_first(), cs)
    }
}

/// An associated item `type X K = V;` (or `const`) of the trait keeps its
/// keyword and all of `K` up to `=`, with each `[T]` replaced by the bounds
/// of `T`, and loses its value `= V`; what follows is read as a new item.
pub proof fn law_assoc_item_stripped(
    kw: Tok,
    bounds: Seq<Tok>,
    eq: Tok,
    value: Seq<Tok>,
    semi: Tok,
    rest: Seq<Tok>,
    cs: Seq<ConstraintView>,
)
    requires
        is_ident_tok(kw, "type"@) || is_ident_tok(kw, "const"@),
        is_punct_tok(eq, '='),
        is_punct_tok(semi, ';'),
        forall|m: int|
            0 <= m < bounds.len() ==> !is_punct_tok(#[trigger] bounds[m], '=') && valid_placeholder(
                bounds[m],
                cs,
            ),
        forall|m: int| 0 <= m < value.len() ==> !is_punct_tok(#[trigger] value[m], ';'),
    ensures
        strip_body(seq![kw] + bounds + seq![eq] + value + seq![semi] + rest, 0, BodyState::Idle, cs)
            == prepend_body(seq![kw] + substituted(bounds, cs) + seq![semi], strip_body(rest, 0, BodyState::Idle, cs)),
{
    let item = seq![kw] + bounds + seq![eq] + value + seq![semi];
    let ts = item + rest;
    let b = bounds.len() as int;
    let v = value.len() as int;
    assert(ts[0] == kw);
    assert forall|m: int| 1 <= m < 1 + b implies !is_punct_tok(#[trigger] ts[m], '=') && valid_placeholder(ts[m], cs) by {
        assert(ts[m] == bounds[m - 1]);
    }
    assert forall|m: int| 2 + b <= m < 2 + b + v implies !is_punct_tok(#[trigger] ts[m], ';') by {
        assert(ts[m] == value[m - 2 - b]);
    }
    assert(ts[1 + b] == eq);
    assert(ts[2 + b + v] == semi);
    assert(ts.subrange(1, 1 + b) =~= bounds);
    lemma_strip_bounds(ts, 1, 1 + b, cs);
    lemma_strip_value(ts, 2 + b, 2 + b + v, cs);
    lemma_strip_body_shift(item, rest, 0, BodyState::Idle, cs);
    assert(item.len() == 3 + b + v);
    let r = strip_body(rest, 0, BodyState::Idle, cs);
    if let Ok(y) = r {
        assert(seq![kw] + (substituted(bounds, cs) + (seq![] + (seq![semi] + y))) =~= (seq![kw]
            + substituted(bounds, cs) + seq![semi]) + y);
    }
}

/// Reading the bounds of an associated item, from `i` to `j`.
pub proof fn lemma_strip_bounds(ts: Seq<Tok>, i: int, j: int, cs: Seq<ConstraintView>)
    requires
        0 <= i <= j <= ts.len(),
        forall|m: int| i <= m < j ==> !is_punct_tok(#[trigger] ts[m], '=') && valid_placeholder(ts[m], cs),
    ensures
        strip_body(ts, i, BodyState::Assoc, cs) == prepend_body(
            substituted(ts.subrange(i, j), cs),
            strip_body(ts, j, BodyState::Assoc, cs),
        ),
    decreases j - i,
{
    let r = strip_body(ts, j, BodyState::Assoc, cs);
    if i < j {
        lemma_strip_bounds(ts, i + 1, j, cs);
        assert(ts.subrange(i, j).drop_first() =~= ts.subrange(i + 1, j));
        assert(ts.subrange(i, j)[0] == ts[i]);
        assert(body_step(ts[i], BodyState::Assoc, cs) == Ok::<(Seq<Tok>, BodyState), ExpandError>(
            (bound_piece(ts[i], cs), BodyState::Assoc),
        ));
        if let Ok(y) = r {
            let p = bound_piece(ts[i], cs);
            let q = substituted(ts.subrange(i + 1, j), cs);
            assert(p + (q + y) =~= (p + q) + y);
        }
    } else {
        assert(ts.subrange(i, j) =~= seq![]);
        if let Ok(y) = r {
            assert(seq![] + y =~= y);
        }
    }
}

/// Reading the value of an associated item, from `i` to `j`, drops it.
pub proof fn lemma_strip_value(ts: Seq<Tok>, i: int, j: int, cs: Seq<ConstraintView>)
    requires
        0 <= i <= j <= ts.len(),
        forall|m: int| i <= m < j ==> !is_punct_tok(#[trigger] ts[m], ';'),
    ensures
        strip_body(ts, i, BodyState::AssocVal, cs) == strip_body(ts, j, BodyState::AssocVal, cs),
    decreases j - i,
{
    if i < j {
        lemma_strip_value(ts, i + 1, j, cs);
        if let Ok(y) = strip_body(ts, j, BodyState::AssocVal, cs) {
            assert(seq![] + y =~= y);
        }
    }
}

// ---------------------------------------------------------------------------
// More of the same
// ---------------------------------------------------------------------------

/// Lifetime `l` as declared: its attributes, its name, `:` and its bounds
/// if it has any, then a comma.
pub open spec fn lifetime_decl(l: ParamView) -> Seq<Tok> {
    l.attrs + l.name + (if l.bounds.len() == 0 {
        seq![]
    } else {
        seq![alone(':')] + l.bounds
    }) + seq![alone(',')]
}

/// The lifetimes as the trait declares them are, in order, each lifetime
/// with its bounds, followed by a comma.
pub proof fn law_lifetimes_decl_keep_bounds(ls: Seq<ParamView>)
    ensures
        lifetimes_decl(ls) == Seq::new(ls.len(), |i: int| lifetime_decl(ls[i])).flatten(),
    decreases ls.len(),
{
    let pieces = Seq::new(ls.len(), |i: int| lifetime_decl(ls[i]));
    pieces.lemma_flatten_and_flatten_alt_are_equivalent();
    if ls.len() > 0 {
        law_lifetimes_decl_keep_bounds(ls.drop_last());
        let prev = Seq::new(ls.drop_last().len(), |i: int| lifetime_decl(ls.drop_last()[i]));
        prev.lemma_flatten_and_flatten_alt_are_equivalent();
        assert(pieces.drop_last() =~= prev);
        assert(pieces.last() == lifetime_decl(ls.last()));
        assert(lifetimes_decl(ls) =~= prev.flatten_alt() + pieces.last());
    } else {
        assert(pieces =~= Seq::<Seq<Tok>>::empty());
    }
}

/// A parameter whose name an earlier parameter has takes no bounds from
/// the `where` clause: the first took them. It keeps its own, followed by
/// a `+` if it has any.
pub proof fn law_merge_name_taken(cs: Seq<ConstraintView>, other: Seq<ConstraintView>, i: int, j: int, k: int)
    requires
        0 <= j < i < cs.len(),
        cs[j].name == cs[i].name,
        0 <= k < other.len(),
        other[k].name == cs[i].name,
    ensures
        merged(cs, other)[i] == (ConstraintView {
            is_lifetime: cs[i].is_lifetime,
            name: cs[i].name,
            def: if cs[i].def.len() == 0 {
                seq![]
            } else {
                cs[i].def + seq![Tok::Punct('+', Spacing::Alone)]
            },
        }),
{
    crate::function_like::lemma_first_named_bounds(other, cs[i].name, 0);
    lemma_first_named_found(other, cs[i].name, 0, k);
    assert(cs[i].def + seq![Tok::Punct('+', Spacing::Alone)] + seq![] =~= cs[i].def + seq![
        Tok::Punct('+', Spacing::Alone),
    ]);
}

/// Where an entry from `from` on is named `name`, a first one is found.
pub proof fn lemma_first_named_found(cs: Seq<ConstraintView>, name: Seq<char>, from: int, k: int)
    requires
        0 <= from <= k < cs.len(),
        cs[k].name == name,
    ensures
        first_named(cs, name, from) is Some,
    decreases k - from,
{
    if from < k && cs[from].name != name {
        lemma_first_named_found(cs, name, from + 1, k);
    }
}

/// A `>` that closes more than was opened, before any `ender` outside
/// `< >`, makes reading the type fail.
pub proof fn law_scan_type_too_many_closing(ts: Seq<Tok>, pos: int, q: int, end: int, ender: char)
    requires
        0 <= pos <= q < end <= ts.len(),
        ender != '<' && ender != '>',
        forall|j: int| pos < j <= q ==> angle_depth(#[trigger] ts.subrange(pos, j)) >= 0,
        forall|j: int|
            pos <= j < q && is_punct_tok(ts[j], ender) ==> angle_depth(#[trigger] ts.subrange(pos, j)) > 0,
        is_punct_tok(ts[q], '>'),
        angle_depth(ts.subrange(pos, q)) == 0,
    ensures
        scan_type(ts, pos, end, 0, ender) == Err::<(Seq<Tok>, int), ExpandError>(
            ExpandError::TooManyClosingAngles,
        ),
{
    assert(ts.subrange(pos, pos) =~= seq![]);
    lemma_scan_type_too_many_from(ts, pos, pos, q, end, ender);
}

/// `law_scan_type_too_many_closing`, from position `i` on.
pub proof fn lemma_scan_type_too_many_from(ts: Seq<Tok>, pos: int, i: int, q: int, end: int, ender: char)
    requires
        0 <= pos <= i <= q < end <= ts.len(),
        ender != '<' && ender != '>',
        angle_depth(ts.subrange(pos, i)) >= 0,
        forall|j: int| pos < j <= q ==> angle_depth(#[trigger] ts.subrange(pos, j)) >= 0,
        forall|j: int|
            pos <= j < q && is_punct_tok(ts[j], ender) ==> angle_depth(#[trigger] ts.subrange(pos, j)) > 0,
        is_punct_tok(ts[q], '>'),
        angle_depth(ts.subrange(pos, q)) == 0,
    ensures
        scan_type(ts, i, end, angle_depth(ts.subrange(pos, i)) as nat, ender) == Err::<
            (Seq<Tok>, int),
            ExpandError,
        >(ExpandError::TooManyClosingAngles),
    decreases q - i,
{
    let n = angle_depth(ts.subrange(pos, i));
    if i < q {
        let t = ts[i];
        assert(ts.subrange(pos, i + 1).drop_last() =~= ts.subrange(pos, i));
        assert(ts.subrange(pos, i + 1).last() == t);
        assert(angle_depth(ts.subrange(pos, i + 1)) == n + angle_step(t));
        lemma_scan_type_too_many_from(ts, pos, i + 1, q, end, ender);
        if is_punct_tok(t, '>') {
            assert(n >= 1);
            assert(((n as nat) - 1) as nat == (n + angle_step(t)) as nat);
        } else if is_punct_tok(t, '<') {
            assert((n as nat) + 1 == (n + angle_step(t)) as nat);
        } else {
            if is_punct_tok(t, ender) {
                assert(n > 0);
            }
            assert(n as nat == (n + angle_step(t)) as nat);
        }
    }
}

/// A function of the trait, `fn` and a header `H` with no `{ }` in it
/// followed by its body, becomes `fn H ;`; what follows is read as a new
/// item.
pub proof fn law_fn_item_loses_body(
    kw: Tok,
    header: Seq<Tok>,
    body: Tok,
    rest: Seq<Tok>,
    cs: Seq<ConstraintView>,
)
    requires
        is_ident_tok(kw, "fn"@),
        forall|m: int| 0 <= m < header.len() ==> !crate::token::is_group_tok(#[trigger] header[m], Delimiter::Brace),
        crate::token::is_group_tok(body, Delimiter::Brace),
    ensures
        strip_body(seq![kw] + header + seq![body] + rest, 0, BodyState::Idle, cs) == prepend_body(
            seq![kw] + header + seq![Tok::Punct(';', Spacing::Alone)],
            strip_body(rest, 0, BodyState::Idle, cs),
        ),
{
    let item = seq![kw] + header + seq![body];
    let ts = item + rest;
    let h = header.len() as int;
    assert(ts[0] == kw);
    assert forall|m: int| 1 <= m < 1 + h implies !crate::token::is_group_tok(#[trigger] ts[m], Delimiter::Brace) by {
        assert(ts[m] == header[m - 1]);
    }
    assert(ts[1 + h] == body);
    assert(ts.subrange(1, 1 + h) =~= header);
    lemma_strip_header(ts, 1, 1 + h, cs);
    lemma_strip_body_shift(item, rest, 0, BodyState::Idle, cs);
    assert(item.len() == 2 + h);
    reveal_strlit("fn");
    reveal_strlit("type");
    reveal_strlit("const");
    assert("fn"@.len() != "type"@.len() && "fn"@.len() != "const"@.len());
    assert(!is_ident_tok(kw, "type"@) && !is_ident_tok(kw, "const"@));
    assert(body_step(ts[0], BodyState::Idle, cs) == Ok::<(Seq<Tok>, BodyState), ExpandError>(
        (seq![kw], BodyState::Fn),
    ));
    assert(body_step(ts[1 + h], BodyState::Fn, cs) == Ok::<(Seq<Tok>, BodyState), ExpandError>(
        (seq![Tok::Punct(';', Spacing::Alone)], BodyState::Idle),
    ));
    if let Ok(y) = strip_body(rest, 0, BodyState::Idle, cs) {
        assert(seq![kw] + (header + (seq![Tok::Punct(';', Spacing::Alone)] + y)) =~= (seq![kw] + header
            + seq![Tok::Punct(';', Spacing::Alone)]) + y);
    }
}

/// Reading a function's header, from `i` to `j`, keeps it.
pub proof fn lemma_strip_header(ts: Seq<Tok>, i: int, j: int, cs: Seq<ConstraintView>)
    requires
        0 <= i <= j <= ts.len(),
        forall|m: int| i <= m < j ==> !crate::token::is_group_tok(#[trigger] ts[m], Delimiter::Brace),
    ensures
        strip_body(ts, i, BodyState::Fn, cs) == prepend_body(
            ts.subrange(i, j),
            strip_body(ts, j, BodyState::Fn, cs),
        ),
    decreases j - i,
{
    let r = strip_body(ts, j, BodyState::Fn, cs);
    if i < j {
        lemma_strip_header(ts, i + 1, j, cs);
        if let Ok(y) = r {
            assert(seq![ts[i]] + (ts.subrange(i + 1, j) + y) =~= ts.subrange(i, j) + y);
        }
    } else {
        assert(ts.subrange(i, j) =~= seq![]);
        if let Ok(y) = r {
            assert(seq![] + y =~= y);
        }
    }
}

/// An associated type of the impl, `type N K = ..`, loses what stands
/// between its name and `=`; the rest is read as before.
pub proof fn law_impl_type_loses_bounds(kw: Tok, name: Tok, bounds: Seq<Tok>, eq: Tok, rest: Seq<Tok>)
    requires
        is_ident_tok(kw, "type"@),
        is_punct_tok(eq, '='),
        forall|m: int| 0 <= m < bounds.len() ==> !is_punct_tok(#[trigger] bounds[m], '='),
    ensures
        strip_impl(seq![kw, name] + bounds + seq![eq] + rest, 0, ImplState::Idle) == seq![kw, name, eq]
            + strip_impl(rest, 0, ImplState::Idle),
{
    let item = seq![kw, name] + bounds + seq![eq];
    let ts = item + rest;
    let b = bounds.len() as int;
    assert(ts[0] == kw);
    assert(ts[1] == name);
    assert forall|m: int| 2 <= m < 2 + b implies !is_punct_tok(#[trigger] ts[m], '=') by {
        assert(ts[m] == bounds[m - 2]);
    }
    assert(ts[2 + b] == eq);
    lemma_strip_impl_drops(ts, 2, 2 + b);
    assert(item.len() == 3 + b);
    lemma_strip_impl_shift(item, rest, 0, ImplState::Idle);
    let tail = strip_impl(rest, 0, ImplState::Idle);
    assert(strip_impl(ts, 3 + b, ImplState::Idle) == tail);
    assert(strip_impl(ts, 2 + b, ImplState::AssocType) == seq![eq] + tail);
    assert(strip_impl(ts, 1, ImplState::Assoc) == seq![name] + strip_impl(ts, 2, ImplState::AssocType));
    assert(strip_impl(ts, 0, ImplState::Idle) == seq![kw] + strip_impl(ts, 1, ImplState::Assoc));
    assert(seq![kw] + (seq![name] + (seq![eq] + strip_impl(rest, 0, ImplState::Idle))) =~= seq![
        kw,
        name,
        eq,
    ] + strip_impl(rest, 0, ImplState::Idle));
}

/// Reading an associated type's bounds in the impl, from `i` to `j`, drops
/// them.
pub proof fn lemma_strip_impl_drops(ts: Seq<Tok>, i: int, j: int)
    requires
        0 <= i <= j <= ts.len(),
        forall|m: int| i <= m < j ==> !is_punct_tok(#[trigger] ts[m], '='),
    ensures
        strip_impl(ts, i, ImplState::AssocType) == strip_impl(ts, j, ImplState::AssocType),
    decreases j - i,
{
    if i < j {
        lemma_strip_impl_drops(ts, i + 1, j);
        assert(seq![] + strip_impl(ts, i + 1, ImplState::AssocType) =~= strip_impl(
            ts,
            i + 1,
            ImplState::AssocType,
        ));
    }
}

/// Parameter `c` as an argument.
pub open spec fn var_piece(c: ConstraintView) -> Seq<Tok> {
    (if c.is_lifetime {
        seq![Tok::Punct('\'', Spacing::Joint)]
    } else {
        seq![]
    }) + seq![Tok::Ident(c.name), Tok::Punct(',', Spacing::Alone)]
}

/// The parameters as arguments are, in order, each parameter's name (a
/// lifetime's with a joint `'` before it) followed by a comma; no bound is
/// among them.
pub proof fn law_vars_are_names(ps: Seq<ConstraintView>)
    ensures
        vars_of(ps) == Seq::new(ps.len(), |i: int| var_piece(ps[i])).flatten(),
    decreases ps.len(),
{
    let pieces = Seq::new(ps.len(), |i: int| var_piece(ps[i]));
    pieces.lemma_flatten_and_flatten_alt_are_equivalent();
    if ps.len() > 0 {
        law_vars_are_names(ps.drop_last());
        let prev = Seq::new(ps.drop_last().len(), |i: int| var_piece(ps.drop_last()[i]));
        prev.lemma_flatten_and_flatten_alt_are_equivalent();
        assert(pieces.drop_last() =~= prev);
        assert(vars_of(ps) =~= prev.flatten_alt() + pieces.last());
    } else {
        assert(pieces =~= Seq::<Seq<Tok>>::empty());
    }
}

/// The associated type declared for type parameter `p`.
pub open spec fn assoc_decl_piece(p: ParamView) -> Seq<Tok> {
    seq![Tok::Ident("type"@)] + p.attrs + p.name + (if p.bounds.len() == 0 {
        seq![]
    } else {
        seq![Tok::Punct(':', Spacing::Alone)] + p.bounds
    }) + seq![Tok::Punct(';', Spacing::Alone)]
}

/// The trait declares, in order, an associated type for each type
/// parameter: `type`, its attributes, its name, `:` and its bounds if it has
/// any, and `;`; no default.
pub proof fn law_assoc_decls_are_params(ps: Seq<ParamView>)
    ensures
        assoc_decls(ps) == Seq::new(ps.len(), |i: int| assoc_decl_piece(ps[i])).flatten(),
    decreases ps.len(),
{
    let pieces = Seq::new(ps.len(), |i: int| assoc_decl_piece(ps[i]));
    pieces.lemma_flatten_and_flatten_alt_are_equivalent();
    if ps.len() > 0 {
        law_assoc_decls_are_params(ps.drop_last());
        let prev = Seq::new(ps.drop_last().len(), |i: int| assoc_decl_piece(ps.drop_last()[i]));
        prev.lemma_flatten_and_flatten_alt_are_equivalent();
        assert(pieces.drop_last() =~= prev);
        assert(assoc_decls(ps) =~= prev.flatten_alt() + pieces.last());
    } else {
        assert(pieces =~= Seq::<Seq<Tok>>::empty());
    }
}

/// The associated type of the impl for type parameter `p`.
pub open spec fn assoc_impl_piece(p: ParamView) -> Seq<Tok> {
    seq![Tok::Ident("type"@)] + p.name + seq![Tok::Punct('=', Spacing::Alone)] + p.name + seq![
        Tok::Punct(';', Spacing::Alone),
    ]
}

/// The impl sets, in order, each associated type to its parameter:
/// `type T = T;`.
pub proof fn law_assoc_impls_are_names(ps: Seq<ParamView>)
    ensures
        assoc_impls(ps) == Seq::new(ps.len(), |i: int| assoc_impl_piece(ps[i])).flatten(),
    decreases ps.len(),
{
    let pieces = Seq::new(ps.len(), |i: int| assoc_impl_piece(ps[i]));
    pieces.lemma_flatten_and_flatten_alt_are_equivalent();
    if ps.len() > 0 {
        law_assoc_impls_are_names(ps.drop_last());
        let prev = Seq::new(ps.drop_last().len(), |i: int| assoc_impl_piece(ps.drop_last()[i]));
        prev.lemma_flatten_and_flatten_alt_are_equivalent();
        assert(pieces.drop_last() =~= prev);
        assert(assoc_impls(ps) =~= prev.flatten_alt() + pieces.last());
    } else {
        assert(pieces =~= Seq::<Seq<Tok>>::empty());
    }
}

/// Type parameter `p` as the associated type of the trait `tr` with the
/// lifetime arguments `la`.
pub open spec fn assoc_arg_piece(p: ParamView, tr: Seq<char>, la: Seq<Tok>) -> Seq<Tok> {
    seq![
        Tok::Punct('<', Spacing::Alone),
        Tok::Ident("Self"@),
        Tok::Ident("as"@),
        Tok::Ident(tr),
        Tok::Punct('<', Spacing::Alone),
    ] + la + seq![
        Tok::Punct('>', Spacing::Joint),
        Tok::Punct('>', Spacing::Alone),
        Tok::Punct(':', Spacing::Joint),
        Tok::Punct(':', Spacing::Alone),
    ] + p.name + seq![Tok::Punct(',', Spacing::Alone)]
}

/// The struct's type arguments in the trait are, in order, each type
/// parameter as the trait's associated type: `<Self as Tr<la>>::T,`.
pub proof fn law_assoc_args_are_projections(ps: Seq<ParamView>, tr: Seq<char>, la: Seq<Tok>)
    ensures
        assoc_args(ps, tr, la) == Seq::new(ps.len(), |i: int| assoc_arg_piece(ps[i], tr, la)).flatten(),
    decreases ps.len(),
{
    let pieces = Seq::new(ps.len(), |i: int| assoc_arg_piece(ps[i], tr, la));
    pieces.lemma_flatten_and_flatten_alt_are_equivalent();
    if ps.len() > 0 {
        law_assoc_args_are_projections(ps.drop_last(), tr, la);
        let prev = Seq::new(ps.drop_last().len(), |i: int| assoc_arg_piece(ps.drop_last()[i], tr, la));
        prev.lemma_flatten_and_flatten_alt_are_equivalent();
        assert(pieces.drop_last() =~= prev);
        assert(assoc_args(ps, tr, la) =~= prev.flatten_alt() + pieces.last());
    } else {
        assert(pieces =~= Seq::<Seq<Tok>>::empty());
    }
}

/// Without a wrap method nothing is added; with the wrap method `m`, an
/// impl of the struct is added whose body is the method `fn m(self)`.
pub proof fn law_wrap_method_impl(m: Seq<char>, sh: ShapeView)
    ensures
        wrap_impl(None, sh) == Seq::<Tok>::empty(),
        wrap_impl(Some(m), sh).last() matches Tok::Group(Delimiter::Brace, body) && body.len() >= 3
            && body[0] == Tok::Ident("fn"@) && body[1] == Tok::Ident(m) && body[2] == Tok::Group(
            Delimiter::Parenthesis,
            seq![Tok::Ident("self"@)],
        ),
        wrap_impl(Some(m), sh)[2] == Tok::Ident("impl"@),
{
}

} // verus!
