//! The attribute form of the macro: `#[abstract_struct]` on a struct.
//!
//! For `pub struct S<'a, T: Bound>` it keeps the struct and adds
//!
//! * `impl From<Wrapper<S<'a, T>>> for S<'a, T>`, which unwraps;
//! * unless the attribute says `nowrap`, a method `wrap` (or the name given
//!   by `wrap = name`) that wraps the struct in a `Wrapper`;
//! * `pub trait SAbstract<'a>: Deref<Target = S<..>> + Into<S<..>>`, with an
//!   associated type for each type parameter of the struct, bounded as the
//!   parameter is;
//! * the impl of that trait for `Wrapper<S<'a, T>>`.
//!
//! The struct is read by `syn`; its parts come back as token trees, and
//! the expansion is built from them as token trees.
use vstd::prelude::*;
use crate::token::{
    Delimiter, Spacing, Tok, Token, models, is_punct_tok, is_raw_name, raw_name, ident, ident_of,
    punct, literal, group, push_token, extend_all, stream_tokens, tokens_of,
};
use quote::ToTokens;

verus! {

// ---------------------------------------------------------------------------
// The attribute's arguments
// ---------------------------------------------------------------------------

/// Why the attribute's arguments are rejected.
#[derive(Clone, Copy, Debug, PartialEq, Eq, Structural)]
pub enum ArgsError {
    /// The arguments do not start with an identifier.
    ExpectedIdentifierFirst,
    /// Something follows `nowrap`.
    NothingAfterNowrap,
    /// `wrap` is not followed by `=`.
    ExpectedEquals,
    /// `wrap =` is not followed by an identifier.
    ExpectedWrapMethodName,
    /// The arguments start with neither `nowrap` nor `wrap`.
    InvalidArgument,
}

/// The name of the wrap method that the arguments ask for: `wrap` where
/// there are none, no method for `nowrap`, and `name` for `wrap = name`.
/// Tokens after `wrap = name` are not read.
pub open spec fn wrap_method_name(args: Seq<Tok>) -> Result<Option<Seq<char>>, ArgsError> {
    if args.len() == 0 {
        Ok(Some("wrap"@))
    } else {
        match args[0] {
            Tok::Ident(action) => if action == "nowrap"@ {
                if args.len() > 1 {
                    Err(ArgsError::NothingAfterNowrap)
                } else {
                    Ok(None)
                }
            } else if action == "wrap"@ {
                if args.len() > 1 && is_punct_tok(args[1], '=') {
                    if args.len() > 2 {
                        match args[2] {
                            Tok::Ident(name) => Ok(Some(name)),
                            _ => Err(ArgsError::ExpectedWrapMethodName),
                        }
                    } else {
                        Err(ArgsError::ExpectedWrapMethodName)
                    }
                } else {
                    Err(ArgsError::ExpectedEquals)
                }
            } else {
                Err(ArgsError::InvalidArgument)
            },
            _ => Err(ArgsError::ExpectedIdentifierFirst),
        }
    }
}

/// The model of an optional name.
pub open spec fn opt_name(o: Option<String>) -> Option<Seq<char>> {
    match o {
        Some(s) => Some(s@),
        None => None,
    }
}

/// Reads the attribute's arguments: the name of the wrap method to
/// generate, if any.
pub fn parse_wrap_args(args: &Vec<Token>) -> (r: Result<Option<String>, ArgsError>)
    ensures
        match r {
            Ok(o) => wrap_method_name(models(args@)) == Ok::<Option<Seq<char>>, ArgsError>(
                opt_name(o),
            ),
            Err(e) => wrap_method_name(models(args@)) == Err::<Option<Seq<char>>, ArgsError>(e),
        },
{
    let ghost ts = models(args@);
    if args.len() == 0 {
        return Ok(Some("wrap".to_owned()));
    }
    assert(ts[0] == args@[0].model());
    let action = match &args[0] {
        Token::Ident(i) => i,
        _ => {
            return Err(ArgsError::ExpectedIdentifierFirst);
        },
    };
    if *action == "nowrap".to_owned() {
        if args.len() > 1 {
            return Err(ArgsError::NothingAfterNowrap);
        }
        Ok(None)
    } else if *action == "wrap".to_owned() {
        if args.len() > 1 {
            assert(ts[1] == args@[1].model());
        }
        if !(args.len() > 1 && crate::token::punct_is(&args[1], '=')) {
            return Err(ArgsError::ExpectedEquals);
        }
        if args.len() > 2 {
            assert(ts[2] == args@[2].model());
            if let Token::Ident(name) = &args[2] {
                return Ok(Some(name.clone()));
            }
        }
        Err(ArgsError::ExpectedWrapMethodName)
    } else {
        Err(ArgsError::InvalidArgument)
    }
}

// ---------------------------------------------------------------------------
// The struct, as `syn` reads it
// ---------------------------------------------------------------------------

#[verifier::external_type_specification]
#[verifier::external_body]
pub struct ExSynError(syn::Error);

/// The attributes, the name (a lifetime such as `'a`, or an identifier) and
/// the bounds of a generic parameter, each as tokens.
pub type SynParam = (proc_macro2::TokenStream, proc_macro2::TokenStream, proc_macro2::TokenStream);

/// What the expansion reads of a `syn::ItemStruct`, each part as `syn`
/// prints it to tokens: the struct itself, its visibility, its name's text,
/// its generics as an impl declares them and as arguments, whether it has a
/// `where` clause, its lifetime parameters and its type parameters.
pub struct SynStruct(
    pub proc_macro2::TokenStream,
    pub proc_macro2::TokenStream,
    pub String,
    pub proc_macro2::TokenStream,
    pub proc_macro2::TokenStream,
    pub bool,
    pub Vec<SynParam>,
    pub Vec<SynParam>,
);

/// The model of a generic parameter.
pub struct ParamView {
    pub attrs: Seq<Tok>,
    pub name: Seq<Tok>,
    pub bounds: Seq<Tok>,
}

/// The model of what the expansion reads of the struct.
pub struct ShapeView {
    pub item: Seq<Tok>,
    pub vis: Seq<Tok>,
    pub ident: Seq<char>,
    pub impl_generics: Seq<Tok>,
    pub ty_generics: Seq<Tok>,
    pub has_where: bool,
    pub lifetimes: Seq<ParamView>,
    pub type_params: Seq<ParamView>,
}

/// The model of a generic parameter as `syn` gives it.
pub open spec fn syn_param_model(p: SynParam) -> ParamView {
    ParamView { attrs: stream_tokens(p.0), name: stream_tokens(p.1), bounds: stream_tokens(p.2) }
}

impl SynStruct {
    /// The model of these parts.
    pub open spec fn model(self) -> ShapeView {
        ShapeView {
            item: stream_tokens(self.0),
            vis: stream_tokens(self.1),
            ident: self.2@,
            impl_generics: stream_tokens(self.3),
            ty_generics: stream_tokens(self.4),
            has_where: self.5,
            lifetimes: Seq::new(self.6@.len(), |i: int| syn_param_model(self.6@[i])),
            type_params: Seq::new(self.7@.len(), |i: int| syn_param_model(self.7@[i])),
        }
    }
}

/// What `syn` reads as a struct in the token trees `input`, if it reads
/// one there.
pub uninterp spec fn syn_item_struct(input: Seq<Tok>) -> Option<ShapeView>;

/// Parses `input` with `syn::parse2::<syn::ItemStruct>`. On success it hands
/// back the struct's parts, each printed to tokens by `quote::ToTokens`:
/// the struct itself, its visibility, the two forms of its generics that
/// `Generics::split_for_impl` gives, and the attributes, name and bounds of
/// each lifetime parameter (`Generics::lifetimes`) and type parameter
/// (`Generics::type_params`); with its name's text and whether it has a
/// `where` clause. Only `parse2` decides; the rest prints the parts of the
/// value it gives, and `split_for_impl` only selects how the generics are
/// printed. `syn` reads the token trees by their text, spacing and
/// delimiters, and prints back the trees it read, so the contract names the
/// result as a function of the input's token trees; it says nothing of the
/// error `syn` gives.
#[verifier::external_body]
fn syn_struct(input: &proc_macro2::TokenStream) -> (r: Result<SynStruct, syn::Error>)
    ensures
        match r {
            Ok(s) => syn_item_struct(stream_tokens(*input)) == Some(s.model()),
            Err(_) => syn_item_struct(stream_tokens(*input)) is None,
        },
{
    let s: syn::ItemStruct = syn::parse2(input.clone())?;
    let (ig, tg, wc) = s.generics.split_for_impl();
    Ok(SynStruct(s.to_token_stream(), s.vis.to_token_stream(), s.ident.to_string(),
        ig.to_token_stream(), tg.to_token_stream(), wc.is_some(),
        s.generics.lifetimes().map(|l| (l.attrs.iter().map(ToTokens::to_token_stream).collect(),
            l.lifetime.to_token_stream(), l.bounds.to_token_stream())).collect(),
        s.generics.type_params().map(|p| (p.attrs.iter().map(ToTokens::to_token_stream).collect(),
            p.ident.to_token_stream(), p.bounds.to_token_stream())).collect()))
}

/// A generic parameter of the struct, as token trees.
pub struct ParamTokens {
    pub attrs: Vec<Token>,
    pub name: Vec<Token>,
    pub bounds: Vec<Token>,
}

impl ParamTokens {
    /// The model of this parameter.
    pub open spec fn model(self) -> ParamView {
        ParamView { attrs: models(self.attrs@), name: models(self.name@), bounds: models(self.bounds@) }
    }
}

/// What the expansion reads of the struct, as token trees.
pub struct StructShape {
    /// The struct itself.
    pub item: Vec<Token>,
    pub vis: Vec<Token>,
    pub ident: String,
    /// The generic parameters as an impl declares them: `<'a, T: Bound>`.
    pub impl_generics: Vec<Token>,
    /// The generic parameters as arguments: `<'a, T>`.
    pub ty_generics: Vec<Token>,
    pub has_where: bool,
    pub lifetimes: Vec<ParamTokens>,
    pub type_params: Vec<ParamTokens>,
}

impl StructShape {
    /// The model of this shape.
    pub open spec fn model(self) -> ShapeView {
        ShapeView {
            item: models(self.item@),
            vis: models(self.vis@),
            ident: self.ident@,
            impl_generics: models(self.impl_generics@),
            ty_generics: models(self.ty_generics@),
            has_where: self.has_where,
            lifetimes: Seq::new(self.lifetimes@.len(), |i: int| self.lifetimes@[i].model()),
            type_params: Seq::new(self.type_params@.len(), |i: int| self.type_params@[i].model()),
        }
    }
}

/// The parameters `ps`, converted into token trees.
fn params_tokens(ps: Vec<SynParam>) -> (r: Vec<ParamTokens>)
    ensures
        r@.len() == ps@.len(),
        forall|i: int| 0 <= i < ps@.len() ==> #[trigger] r@[i].model() == syn_param_model(ps@[i]),
{
    let ghost orig = ps@;
    let mut ps = ps;
    let mut rev: Vec<ParamTokens> = Vec::new();
    while ps.len() > 0
        invariant
            ps@.len() + rev@.len() == orig.len(),
            ps@ == orig.take(ps@.len() as int),
            forall|j: int|
                0 <= j < rev@.len() ==> #[trigger] rev@[j].model() == syn_param_model(orig[orig.len() - 1 - j]),
        decreases ps.len(),
    {
        let p = ps.pop().unwrap();
        assert(p == orig[ps@.len() as int]);
        let t = ParamTokens { attrs: tokens_of(&p.0), name: tokens_of(&p.1), bounds: tokens_of(&p.2) };
        rev.push(t);
        assert(ps@ =~= orig.take(ps@.len() as int));
    }
    let mut out: Vec<ParamTokens> = Vec::new();
    let n = rev.len();
    while rev.len() > 0
        invariant
            out@.len() + rev@.len() == n == orig.len(),
            forall|j: int| 0 <= j < rev@.len() ==> #[trigger] rev@[j].model() == syn_param_model(orig[orig.len() - 1 - j]),
            forall|i: int| 0 <= i < out@.len() ==> #[trigger] out@[i].model() == syn_param_model(orig[i]),
        decreases rev.len(),
    {
        let t = rev.pop().unwrap();
        out.push(t);
    }
    out
}

/// Reads the struct in the token trees `input` with `syn`, as token trees.
pub fn read_struct(input: &proc_macro2::TokenStream) -> (r: Result<StructShape, syn::Error>)
    ensures
        match r {
            Ok(sh) => syn_item_struct(stream_tokens(*input)) == Some(sh.model()),
            Err(_) => syn_item_struct(stream_tokens(*input)) is None,
        },
{
    let s = syn_struct(input)?;
    let ghost m = s.model();
    let lifetimes = params_tokens(s.6);
    let type_params = params_tokens(s.7);
    let sh = StructShape {
        item: tokens_of(&s.0),
        vis: tokens_of(&s.1),
        ident: s.2,
        impl_generics: tokens_of(&s.3),
        ty_generics: tokens_of(&s.4),
        has_where: s.5,
        lifetimes,
        type_params,
    };
    assert(sh.model().lifetimes =~= m.lifetimes);
    assert(sh.model().type_params =~= m.type_params);
    Ok(sh)
}

// ---------------------------------------------------------------------------
// The expansion, as token trees
// ---------------------------------------------------------------------------

/// A punctuation character standing alone.
pub open spec fn alone(c: char) -> Tok {
    Tok::Punct(c, Spacing::Alone)
}

/// An identifier.
pub open spec fn word(s: Seq<char>) -> Tok {
    Tok::Ident(s)
}

/// `::`.
pub open spec fn path_sep() -> Seq<Tok> {
    seq![Tok::Punct(':', Spacing::Joint), alone(':')]
}

/// `->`.
pub open spec fn arrow() -> Seq<Tok> {
    seq![Tok::Punct('-', Spacing::Joint), alone('>')]
}

/// `abstract_struct::Wrapper`.
pub open spec fn wrapper_path() -> Seq<Tok> {
    seq![word("abstract_struct"@)] + path_sep() + seq![word("Wrapper"@)]
}

/// `std::a::b`.
pub open spec fn std_path(a: Seq<char>, b: Seq<char>) -> Seq<Tok> {
    seq![word("std"@)] + path_sep() + seq![word(a)] + path_sep() + seq![word(b)]
}

/// The struct's type: its name and its generic arguments.
pub open spec fn self_type(sh: ShapeView) -> Seq<Tok> {
    seq![word(sh.ident)] + sh.ty_generics
}

/// `abstract_struct::Wrapper<S<..>>`, whose closing `>` has spacing `last`:
/// joint where another `>` follows at once.
pub open spec fn wrapped_self(sh: ShapeView, last: Spacing) -> Seq<Tok> {
    wrapper_path() + seq![alone('<')] + self_type(sh) + seq![Tok::Punct('>', last)]
}

/// `fn from(w: Wrapper<S<..>>) -> S<..> { w.0 }`.
pub open spec fn from_fn(sh: ShapeView) -> Seq<Tok> {
    seq![
        word("fn"@),
        word("from"@),
        Tok::Group(Delimiter::Parenthesis, seq![word("w"@), alone(':')] + wrapped_self(sh, Spacing::Alone)),
    ] + arrow() + self_type(sh) + seq![
        Tok::Group(Delimiter::Brace, seq![word("w"@), alone('.'), Tok::Literal("0"@)]),
    ]
}

/// `impl<..> From<Wrapper<S<..>>> for S<..> { fn from .. }`, which unwraps.
pub open spec fn from_impl(sh: ShapeView) -> Seq<Tok> {
    seq![word("impl"@)] + sh.impl_generics + seq![word("From"@), alone('<')] + wrapped_self(sh, Spacing::Joint)
        + seq![alone('>'), word("for"@)] + self_type(sh) + seq![Tok::Group(Delimiter::Brace, from_fn(sh))]
}

/// `fn m(self) -> Wrapper<Self> { Wrapper(self) }`.
pub open spec fn wrap_fn(m: Seq<char>) -> Seq<Tok> {
    seq![word("fn"@), word(m), Tok::Group(Delimiter::Parenthesis, seq![word("self"@)])] + arrow()
        + wrapper_path() + seq![
        alone('<'),
        word("Self"@),
        alone('>'),
        Tok::Group(
            Delimiter::Brace,
            wrapper_path() + seq![Tok::Group(Delimiter::Parenthesis, seq![word("self"@)])],
        ),
    ]
}

/// `#[allow(dead_code)] impl<..> S<..> { fn m .. }`, if a wrap method is
/// asked for.
pub open spec fn wrap_impl(wrap: Option<Seq<char>>, sh: ShapeView) -> Seq<Tok> {
    match wrap {
        Some(m) => seq![
            alone('#'),
            Tok::Group(
                Delimiter::Bracket,
                seq![word("allow"@), Tok::Group(Delimiter::Parenthesis, seq![word("dead_code"@)])],
            ),
            word("impl"@),
        ] + sh.impl_generics + self_type(sh) + seq![Tok::Group(Delimiter::Brace, wrap_fn(m))],
        None => seq![],
    }
}

/// A parameter as declared, without its default: attributes, name, and
/// `: bounds` if it has bounds.
pub open spec fn param_decl(p: ParamView) -> Seq<Tok> {
    p.attrs + p.name + (if p.bounds.len() == 0 {
        seq![]
    } else {
        seq![alone(':')] + p.bounds
    })
}

/// The lifetime parameters as declared, each followed by a comma.
pub open spec fn lifetimes_decl(ls: Seq<ParamView>) -> Seq<Tok>
    decreases ls.len(),
{
    if ls.len() == 0 {
        seq![]
    } else {
        lifetimes_decl(ls.drop_last()) + param_decl(ls.last()) + seq![alone(',')]
    }
}

/// The lifetime parameters as arguments, each followed by a comma.
pub open spec fn lifetime_args(ls: Seq<ParamView>) -> Seq<Tok>
    decreases ls.len(),
{
    if ls.len() == 0 {
        seq![]
    } else {
        lifetime_args(ls.drop_last()) + ls.last().attrs + ls.last().name + seq![alone(',')]
    }
}

/// An associated type for each type parameter: `type T: Bound;`.
pub open spec fn assoc_decls(ps: Seq<ParamView>) -> Seq<Tok>
    decreases ps.len(),
{
    if ps.len() == 0 {
        seq![]
    } else {
        assoc_decls(ps.drop_last()) + seq![word("type"@)] + param_decl(ps.last()) + seq![alone(';')]
    }
}

/// Each type parameter as the associated type of the trait `tr` with the
/// lifetime arguments `la`: `<Self as tr<la>>::T,`.
pub open spec fn assoc_args(ps: Seq<ParamView>, tr: Seq<char>, la: Seq<Tok>) -> Seq<Tok>
    decreases ps.len(),
{
    if ps.len() == 0 {
        seq![]
    } else {
        assoc_args(ps.drop_last(), tr, la) + seq![
            alone('<'),
            word("Self"@),
            word("as"@),
            word(tr),
            alone('<'),
        ] + la + seq![Tok::Punct('>', Spacing::Joint), alone('>')] + path_sep() + ps.last().name + seq![alone(',')]
    }
}

/// Each associated type set to its parameter: `type T = T;`.
pub open spec fn assoc_impls(ps: Seq<ParamView>) -> Seq<Tok>
    decreases ps.len(),
{
    if ps.len() == 0 {
        seq![]
    } else {
        assoc_impls(ps.drop_last()) + seq![word("type"@)] + ps.last().name + seq![alone('=')]
            + ps.last().name + seq![alone(';')]
    }
}

/// The name of the generated trait: the struct's name followed by `Abstract`.
pub open spec fn trait_name(sh: ShapeView) -> Seq<char> {
    sh.ident + "Abstract"@
}

/// The struct's name with the lifetime arguments and the trait's associated
/// types as arguments; its closing `>` is joint, as a `>` follows it.
pub open spec fn abstract_self(sh: ShapeView) -> Seq<Tok> {
    seq![word(sh.ident), alone('<')] + lifetime_args(sh.lifetimes) + assoc_args(
        sh.type_params,
        trait_name(sh),
        lifetime_args(sh.lifetimes),
    ) + seq![Tok::Punct('>', Spacing::Joint)]
}

/// The trait: with the struct's visibility, generic over the struct's
/// lifetimes, it dereferences to and converts into the struct, and has an
/// associated type for each type parameter.
pub open spec fn trait_decl(sh: ShapeView) -> Seq<Tok> {
    sh.vis + seq![word("trait"@), word(trait_name(sh)), alone('<')] + lifetimes_decl(sh.lifetimes)
        + seq![alone('>'), alone(':')] + std_path("ops"@, "Deref"@) + seq![
        alone('<'),
        word("Target"@),
        alone('='),
    ] + abstract_self(sh) + seq![alone('>'), alone('+')] + std_path("convert"@, "Into"@) + seq![
        alone('<'),
    ] + abstract_self(sh) + seq![
        alone('>'),
        Tok::Group(Delimiter::Brace, assoc_decls(sh.type_params)),
    ]
}

/// The impl of the trait for the wrapped struct.
pub open spec fn trait_impl(sh: ShapeView) -> Seq<Tok> {
    seq![word("impl"@)] + sh.impl_generics + seq![word(trait_name(sh)), alone('<')] + lifetime_args(
        sh.lifetimes,
    ) + seq![alone('>'), word("for"@)] + wrapped_self(sh, Spacing::Alone) + seq![
        Tok::Group(Delimiter::Brace, assoc_impls(sh.type_params)),
    ]
}

/// The whole expansion: the struct, the `From` impl, the wrap method, the
/// trait and its impl.
pub open spec fn expansion(wrap: Option<Seq<char>>, sh: ShapeView) -> Seq<Tok> {
    sh.item + from_impl(sh) + wrap_impl(wrap, sh) + trait_decl(sh) + trait_impl(sh)
}

/// `abstract_struct::Wrapper`.
fn wrapper_path_tokens() -> (v: Vec<Token>)
    ensures
        models(v@) == wrapper_path(),
{
    let mut v: Vec<Token> = Vec::new();
    push_token(&mut v, ident("abstract_struct"));
    push_token(&mut v, punct(':', Spacing::Joint));
    push_token(&mut v, punct(':', Spacing::Alone));
    push_token(&mut v, ident("Wrapper"));
    assert(models(v@) =~= wrapper_path());
    v
}

/// `std::a::b`.
fn std_path_tokens(a: &str, b: &str) -> (v: Vec<Token>)
    ensures
        models(v@) == std_path(a@, b@),
{
    let mut v: Vec<Token> = Vec::new();
    push_token(&mut v, ident("std"));
    push_token(&mut v, punct(':', Spacing::Joint));
    push_token(&mut v, punct(':', Spacing::Alone));
    push_token(&mut v, ident(a));
    push_token(&mut v, punct(':', Spacing::Joint));
    push_token(&mut v, punct(':', Spacing::Alone));
    push_token(&mut v, ident(b));
    assert(models(v@) =~= std_path(a@, b@));
    v
}

/// The struct's type.
fn self_type_tokens(sh: &StructShape) -> (v: Vec<Token>)
    ensures
        models(v@) == self_type(sh.model()),
{
    let mut v: Vec<Token> = Vec::new();
    push_token(&mut v, ident_of(&sh.ident));
    extend_all(&mut v, &sh.ty_generics);
    assert(models(v@) =~= self_type(sh.model()));
    v
}

/// `abstract_struct::Wrapper<S<..>>`.
fn wrapped_self_tokens(sh: &StructShape, last: Spacing) -> (v: Vec<Token>)
    ensures
        models(v@) == wrapped_self(sh.model(), last),
{
    let mut v = wrapper_path_tokens();
    push_token(&mut v, punct('<', Spacing::Alone));
    let st = self_type_tokens(sh);
    extend_all(&mut v, &st);
    push_token(&mut v, punct('>', last));
    assert(models(v@) =~= wrapped_self(sh.model(), last));
    v
}

/// The `From` impl.
fn from_impl_tokens(sh: &StructShape) -> (v: Vec<Token>)
    ensures
        models(v@) == from_impl(sh.model()),
{
    let ghost m = sh.model();
    let mut param: Vec<Token> = Vec::new();
    push_token(&mut param, ident("w"));
    push_token(&mut param, punct(':', Spacing::Alone));
    let ws = wrapped_self_tokens(sh, Spacing::Alone);
    extend_all(&mut param, &ws);
    assert(models(param@) =~= seq![word("w"@), alone(':')] + wrapped_self(m, Spacing::Alone));
    let mut unwrap: Vec<Token> = Vec::new();
    push_token(&mut unwrap, ident("w"));
    push_token(&mut unwrap, punct('.', Spacing::Alone));
    push_token(&mut unwrap, literal("0"));
    assert(models(unwrap@) =~= seq![word("w"@), alone('.'), Tok::Literal("0"@)]);
    let mut f: Vec<Token> = Vec::new();
    push_token(&mut f, ident("fn"));
    push_token(&mut f, ident("from"));
    push_token(&mut f, group(Delimiter::Parenthesis, param));
    push_token(&mut f, punct('-', Spacing::Joint));
    push_token(&mut f, punct('>', Spacing::Alone));
    let st = self_type_tokens(sh);
    extend_all(&mut f, &st);
    push_token(&mut f, group(Delimiter::Brace, unwrap));
    assert(models(f@) =~= from_fn(m));
    let mut v: Vec<Token> = Vec::new();
    push_token(&mut v, ident("impl"));
    extend_all(&mut v, &sh.impl_generics);
    push_token(&mut v, ident("From"));
    push_token(&mut v, punct('<', Spacing::Alone));
    let ws = wrapped_self_tokens(sh, Spacing::Joint);
    extend_all(&mut v, &ws);
    push_token(&mut v, punct('>', Spacing::Alone));
    push_token(&mut v, ident("for"));
    extend_all(&mut v, &st);
    push_token(&mut v, group(Delimiter::Brace, f));
    assert(models(v@) =~= from_impl(m));
    v
}

/// The wrap method's impl, if one is asked for.
fn wrap_impl_tokens(wrap: &Option<String>, sh: &StructShape) -> (v: Vec<Token>)
    ensures
        models(v@) == wrap_impl(opt_name(*wrap), sh.model()),
{
    let ghost m = sh.model();
    let mut v: Vec<Token> = Vec::new();
    match wrap {
        None => {
            assert(models(v@) =~= seq![]);
        },
        Some(name) => {
            let mut selfs: Vec<Token> = Vec::new();
            push_token(&mut selfs, ident("self"));
            assert(models(selfs@) =~= seq![word("self"@)]);
            let mut body = wrapper_path_tokens();
            push_token(&mut body, group(Delimiter::Parenthesis, selfs));
            assert(models(body@) =~= wrapper_path() + seq![
                Tok::Group(Delimiter::Parenthesis, seq![word("self"@)]),
            ]);
            let mut selfs2: Vec<Token> = Vec::new();
            push_token(&mut selfs2, ident("self"));
            assert(models(selfs2@) =~= seq![word("self"@)]);
            let mut f: Vec<Token> = Vec::new();
            push_token(&mut f, ident("fn"));
            push_token(&mut f, ident_of(name));
            push_token(&mut f, group(Delimiter::Parenthesis, selfs2));
            push_token(&mut f, punct('-', Spacing::Joint));
            push_token(&mut f, punct('>', Spacing::Alone));
            let wp = wrapper_path_tokens();
            extend_all(&mut f, &wp);
            push_token(&mut f, punct('<', Spacing::Alone));
            push_token(&mut f, ident("Self"));
            push_token(&mut f, punct('>', Spacing::Alone));
            push_token(&mut f, group(Delimiter::Brace, body));
            assert(models(f@) =~= wrap_fn(name@));
            let mut dead: Vec<Token> = Vec::new();
            push_token(&mut dead, ident("dead_code"));
            assert(models(dead@) =~= seq![word("dead_code"@)]);
            let mut attr: Vec<Token> = Vec::new();
            push_token(&mut attr, ident("allow"));
            push_token(&mut attr, group(Delimiter::Parenthesis, dead));
            assert(models(attr@) =~= seq![
                word("allow"@),
                Tok::Group(Delimiter::Parenthesis, seq![word("dead_code"@)]),
            ]);
            push_token(&mut v, punct('#', Spacing::Alone));
            push_token(&mut v, group(Delimiter::Bracket, attr));
            push_token(&mut v, ident("impl"));
            extend_all(&mut v, &sh.impl_generics);
            let st = self_type_tokens(sh);
            extend_all(&mut v, &st);
            push_token(&mut v, group(Delimiter::Brace, f));
            assert(models(v@) =~= wrap_impl(opt_name(*wrap), m));
        },
    }
    v
}

/// Appends parameter `p` as declared, without its default.
fn push_param_decl(v: &mut Vec<Token>, p: &ParamTokens)
    ensures
        models(final(v)@) == models(old(v)@) + param_decl(p.model()),
{
    let ghost before = models(v@);
    extend_all(v, &p.attrs);
    extend_all(v, &p.name);
    let ghost mid = models(v@);
    if p.bounds.len() != 0 {
        push_token(v, punct(':', Spacing::Alone));
        extend_all(v, &p.bounds);
    }
    assert(models(v@) =~= before + param_decl(p.model()));
}

/// The lifetime parameters as declared (`bare` false) or as arguments
/// (`bare` true), each followed by a comma.
fn lifetime_list(sh: &StructShape, bare: bool) -> (v: Vec<Token>)
    ensures
        models(v@) == if bare {
            lifetime_args(sh.model().lifetimes)
        } else {
            lifetimes_decl(sh.model().lifetimes)
        },
{
    let ghost ls = sh.model().lifetimes;
    let mut v: Vec<Token> = Vec::new();
    let mut i: usize = 0;
    while i < sh.lifetimes.len()
        invariant
            0 <= i <= sh.lifetimes.len(),
            ls == sh.model().lifetimes,
            models(v@) == if bare {
                lifetime_args(ls.subrange(0, i as int))
            } else {
                lifetimes_decl(ls.subrange(0, i as int))
            },
        decreases sh.lifetimes.len() - i,
    {
        let p = &sh.lifetimes[i];
        let ghost before = models(v@);
        assert(ls[i as int] == p.model());
        if bare {
            extend_all(&mut v, &p.attrs);
            extend_all(&mut v, &p.name);
        } else {
            push_param_decl(&mut v, p);
        }
        push_token(&mut v, punct(',', Spacing::Alone));
        assert(ls.subrange(0, i + 1).drop_last() =~= ls.subrange(0, i as int));
        assert(ls.subrange(0, i + 1).last() == p.model());
        assert(models(v@) =~= before + (if bare {
            p.model().attrs + p.model().name
        } else {
            param_decl(p.model())
        }) + seq![alone(',')]);
        i = i + 1;
    }
    assert(ls.subrange(0, i as int) =~= ls);
    v
}

/// The associated type declarations of the trait.
fn assoc_decl_tokens(sh: &StructShape) -> (v: Vec<Token>)
    ensures
        models(v@) == assoc_decls(sh.model().type_params),
{
    let ghost ps = sh.model().type_params;
    let mut v: Vec<Token> = Vec::new();
    let mut i: usize = 0;
    while i < sh.type_params.len()
        invariant
            0 <= i <= sh.type_params.len(),
            ps == sh.model().type_params,
            models(v@) == assoc_decls(ps.subrange(0, i as int)),
        decreases sh.type_params.len() - i,
    {
        let p = &sh.type_params[i];
        let ghost before = models(v@);
        assert(ps[i as int] == p.model());
        push_token(&mut v, ident("type"));
        push_param_decl(&mut v, p);
        push_token(&mut v, punct(';', Spacing::Alone));
        assert(ps.subrange(0, i + 1).drop_last() =~= ps.subrange(0, i as int));
        assert(models(v@) =~= before + seq![word("type"@)] + param_decl(p.model()) + seq![alone(';')]);
        i = i + 1;
    }
    assert(ps.subrange(0, i as int) =~= ps);
    v
}

/// The trait's associated types as arguments of the struct.
fn assoc_arg_tokens(sh: &StructShape, tr: &String, la: &Vec<Token>) -> (v: Vec<Token>)
    ensures
        models(v@) == assoc_args(sh.model().type_params, tr@, models(la@)),
{
    let ghost ps = sh.model().type_params;
    let mut v: Vec<Token> = Vec::new();
    let mut i: usize = 0;
    while i < sh.type_params.len()
        invariant
            0 <= i <= sh.type_params.len(),
            ps == sh.model().type_params,
            models(v@) == assoc_args(ps.subrange(0, i as int), tr@, models(la@)),
        decreases sh.type_params.len() - i,
    {
        let p = &sh.type_params[i];
        let ghost before = models(v@);
        assert(ps[i as int] == p.model());
        push_token(&mut v, punct('<', Spacing::Alone));
        push_token(&mut v, ident("Self"));
        push_token(&mut v, ident("as"));
        push_token(&mut v, ident_of(tr));
        push_token(&mut v, punct('<', Spacing::Alone));
        extend_all(&mut v, la);
        push_token(&mut v, punct('>', Spacing::Joint));
        push_token(&mut v, punct('>', Spacing::Alone));
        push_token(&mut v, punct(':', Spacing::Joint));
        push_token(&mut v, punct(':', Spacing::Alone));
        extend_all(&mut v, &p.name);
        push_token(&mut v, punct(',', Spacing::Alone));
        assert(ps.subrange(0, i + 1).drop_last() =~= ps.subrange(0, i as int));
        assert(models(v@) =~= before + seq![alone('<'), word("Self"@), word("as"@), word(tr@), alone('<')]
            + models(la@) + seq![Tok::Punct('>', Spacing::Joint), alone('>')] + path_sep() + p.model().name + seq![alone(',')]);
        i = i + 1;
    }
    assert(ps.subrange(0, i as int) =~= ps);
    v
}

/// The associated types of the trait's impl.
fn assoc_impl_tokens(sh: &StructShape) -> (v: Vec<Token>)
    ensures
        models(v@) == assoc_impls(sh.model().type_params),
{
    let ghost ps = sh.model().type_params;
    let mut v: Vec<Token> = Vec::new();
    let mut i: usize = 0;
    while i < sh.type_params.len()
        invariant
            0 <= i <= sh.type_params.len(),
            ps == sh.model().type_params,
            models(v@) == assoc_impls(ps.subrange(0, i as int)),
        decreases sh.type_params.len() - i,
    {
        let p = &sh.type_params[i];
        let ghost before = models(v@);
        assert(ps[i as int] == p.model());
        push_token(&mut v, ident("type"));
        extend_all(&mut v, &p.name);
        push_token(&mut v, punct('=', Spacing::Alone));
        extend_all(&mut v, &p.name);
        push_token(&mut v, punct(';', Spacing::Alone));
        assert(ps.subrange(0, i + 1).drop_last() =~= ps.subrange(0, i as int));
        assert(models(v@) =~= before + seq![word("type"@)] + p.model().name + seq![alone('=')]
            + p.model().name + seq![alone(';')]);
        i = i + 1;
    }
    assert(ps.subrange(0, i as int) =~= ps);
    v
}

/// The struct's name with the lifetime arguments `la` and the trait's
/// associated types as arguments.
fn abstract_self_tokens(sh: &StructShape, tr: &String, la: &Vec<Token>) -> (v: Vec<Token>)
    requires
        tr@ == trait_name(sh.model()),
        models(la@) == lifetime_args(sh.model().lifetimes),
    ensures
        models(v@) == abstract_self(sh.model()),
{
    let mut v: Vec<Token> = Vec::new();
    push_token(&mut v, ident_of(&sh.ident));
    push_token(&mut v, punct('<', Spacing::Alone));
    extend_all(&mut v, la);
    let args = assoc_arg_tokens(sh, tr, la);
    extend_all(&mut v, &args);
    push_token(&mut v, punct('>', Spacing::Joint));
    assert(models(v@) =~= abstract_self(sh.model()));
    v
}

/// The trait.
fn trait_decl_tokens(sh: &StructShape, tr: &String, la: &Vec<Token>) -> (v: Vec<Token>)
    requires
        tr@ == trait_name(sh.model()),
        models(la@) == lifetime_args(sh.model().lifetimes),
    ensures
        models(v@) == trait_decl(sh.model()),
{
    let ghost m = sh.model();
    let abs = abstract_self_tokens(sh, tr, la);
    let mut v: Vec<Token> = Vec::new();
    extend_all(&mut v, &sh.vis);
    push_token(&mut v, ident("trait"));
    push_token(&mut v, ident_of(tr));
    push_token(&mut v, punct('<', Spacing::Alone));
    let decl = lifetime_list(sh, false);
    extend_all(&mut v, &decl);
    push_token(&mut v, punct('>', Spacing::Alone));
    push_token(&mut v, punct(':', Spacing::Alone));
    let ghost head = models(v@);
    let deref = std_path_tokens("ops", "Deref");
    extend_all(&mut v, &deref);
    push_token(&mut v, punct('<', Spacing::Alone));
    push_token(&mut v, ident("Target"));
    push_token(&mut v, punct('=', Spacing::Alone));
    extend_all(&mut v, &abs);
    push_token(&mut v, punct('>', Spacing::Alone));
    push_token(&mut v, punct('+', Spacing::Alone));
    let ghost mid = models(v@);
    let into = std_path_tokens("convert", "Into");
    extend_all(&mut v, &into);
    push_token(&mut v, punct('<', Spacing::Alone));
    extend_all(&mut v, &abs);
    push_token(&mut v, punct('>', Spacing::Alone));
    let decls = assoc_decl_tokens(sh);
    push_token(&mut v, group(Delimiter::Brace, decls));
    assert(models(v@) =~= trait_decl(m));
    v
}

/// The impl of the trait for the wrapped struct.
fn trait_impl_tokens(sh: &StructShape, tr: &String, la: &Vec<Token>) -> (v: Vec<Token>)
    requires
        tr@ == trait_name(sh.model()),
        models(la@) == lifetime_args(sh.model().lifetimes),
    ensures
        models(v@) == trait_impl(sh.model()),
{
    let mut v: Vec<Token> = Vec::new();
    push_token(&mut v, ident("impl"));
    extend_all(&mut v, &sh.impl_generics);
    push_token(&mut v, ident_of(tr));
    push_token(&mut v, punct('<', Spacing::Alone));
    extend_all(&mut v, la);
    push_token(&mut v, punct('>', Spacing::Alone));
    push_token(&mut v, ident("for"));
    let ws = wrapped_self_tokens(sh, Spacing::Alone);
    extend_all(&mut v, &ws);
    let impls = assoc_impl_tokens(sh);
    push_token(&mut v, group(Delimiter::Brace, impls));
    assert(models(v@) =~= trait_impl(sh.model()));
    v
}

/// The expansion of the struct of shape `shape`, with the wrap method
/// `wrap`.
pub fn expand_struct(wrap: &Option<String>, shape: &StructShape) -> (v: Vec<Token>)
    ensures
        models(v@) == expansion(opt_name(*wrap), shape.model()),
{
    let ghost m = shape.model();
    let tr = shape.ident.clone().concat("Abstract");
    let la = lifetime_list(shape, true);
    let mut v: Vec<Token> = Vec::new();
    extend_all(&mut v, &shape.item);
    let f = from_impl_tokens(shape);
    extend_all(&mut v, &f);
    let w = wrap_impl_tokens(wrap, shape);
    extend_all(&mut v, &w);
    let t = trait_decl_tokens(shape, &tr, &la);
    extend_all(&mut v, &t);
    let i = trait_impl_tokens(shape, &tr, &la);
    extend_all(&mut v, &i);
    assert(models(v@) =~= expansion(opt_name(*wrap), m));
    v
}

// ---------------------------------------------------------------------------
// The macro
// ---------------------------------------------------------------------------

/// Why the attribute macro rejects its input.
#[derive(Debug)]
pub enum AttrError {
    /// The arguments are malformed.
    Args(ArgsError),
    /// `syn` does not read the input as a struct; its error.
    Parse(syn::Error),
    /// The struct's name is a raw identifier, so that the trait's name, the
    /// struct's name followed by `Abstract`, is no identifier.
    RawStructName,
    /// The struct has a `where` clause.
    WhereClauseUnsupported,
}

/// The model of an error of the attribute macro; what `syn` says of a
/// parse error is left out.
pub enum AttrErrorView {
    Args(ArgsError),
    Parse,
    RawStructName,
    WhereClauseUnsupported,
}

/// Why a struct of shape `sh` is rejected, if it is: first a name that is
/// a raw identifier, then a `where` clause.
pub open spec fn shape_fault(sh: ShapeView) -> Option<AttrErrorView> {
    if is_raw_name(sh.ident) {
        Some(AttrErrorView::RawStructName)
    } else if sh.has_where {
        Some(AttrErrorView::WhereClauseUnsupported)
    } else {
        None
    }
}

/// The outcome for a struct of shape `sh` and the wrap method `wrap`: the
/// rejection of `shape_fault`, or the expansion.
pub open spec fn shape_outcome(wrap: Option<Seq<char>>, sh: ShapeView) -> Result<Seq<Tok>, AttrErrorView> {
    match shape_fault(sh) {
        Some(e) => Err(e),
        None => Ok(expansion(wrap, sh)),
    }
}

/// The outcome of the attribute macro on the arguments `args`, given what
/// `syn` reads of the struct.
pub open spec fn attribute_outcome(args: Seq<Tok>, parsed: Option<ShapeView>) -> Result<
    Seq<Tok>,
    AttrErrorView,
> {
    match wrap_method_name(args) {
        Err(e) => Err(AttrErrorView::Args(e)),
        Ok(wrap) => match parsed {
            None => Err(AttrErrorView::Parse),
            Some(sh) => shape_outcome(wrap, sh),
        },
    }
}

/// The model of an error of the attribute macro.
pub open spec fn error_view(e: AttrError) -> AttrErrorView {
    match e {
        AttrError::Args(a) => AttrErrorView::Args(a),
        AttrError::Parse(_) => AttrErrorView::Parse,
        AttrError::RawStructName => AttrErrorView::RawStructName,
        AttrError::WhereClauseUnsupported => AttrErrorView::WhereClauseUnsupported,
    }
}

/// The model of the attribute macro's result.
pub open spec fn attr_result(r: Result<Vec<Token>, AttrError>) -> Result<Seq<Tok>, AttrErrorView> {
    match r {
        Ok(v) => Ok(models(v@)),
        Err(e) => Err(error_view(e)),
    }
}

/// Why the struct of shape `shape` is rejected, if it is: its name is a raw
/// identifier, or it has a `where` clause.
pub fn shape_error(shape: &StructShape) -> (r: Option<AttrError>)
    ensures
        match r {
            Some(e) => shape_fault(shape.model()) == Some(error_view(e)),
            None => shape_fault(shape.model()) is None,
        },
{
    if raw_name(&shape.ident) {
        Some(AttrError::RawStructName)
    } else if shape.has_where {
        Some(AttrError::WhereClauseUnsupported)
    } else {
        None
    }
}

/// Expands the struct of shape `shape` with the wrap method `wrap`,
/// rejecting a struct whose name is a raw identifier or that has a `where`
/// clause.
pub fn expand_shape(wrap: &Option<String>, shape: &StructShape) -> (r: Result<Vec<Token>, AttrError>)
    ensures
        attr_result(r) == shape_outcome(opt_name(*wrap), shape.model()),
{
    match shape_error(shape) {
        Some(e) => Err(e),
        None => Ok(expand_struct(wrap, shape)),
    }
}

/// The attribute macro, on arguments and a struct that it accepts: reads
/// the wrap method's name from `args`, reads the struct `input` with `syn`,
/// and expands it.
pub fn abstract_struct(args: &proc_macro2::TokenStream, input: &proc_macro2::TokenStream) -> (r: Vec<
    Token,
>)
    requires
        attribute_outcome(stream_tokens(*args), syn_item_struct(stream_tokens(*input))) is Ok,
    ensures
        attribute_outcome(stream_tokens(*args), syn_item_struct(stream_tokens(*input))) == Ok::<
            Seq<Tok>,
            AttrErrorView,
        >(models(r@)),
{
    let a = tokens_of(args);
    let wrap = match parse_wrap_args(&a) {
        Ok(w) => w,
        // the precondition rules this branch out
        Err(_) => None,
    };
    match read_struct(input) {
        Ok(shape) => expand_struct(&wrap, &shape),
        // the precondition rules this branch out
        Err(_) => Vec::new(),
    }
}

/// The attribute macro on any arguments and input: the expansion where
/// `abstract_struct` accepts them, else why not. The arguments are read
/// first, then the struct, then its name and its `where` clause.
pub fn try_abstract_struct(args: &proc_macro2::TokenStream, input: &proc_macro2::TokenStream) -> (r: Result<
    Vec<Token>,
    AttrError,
>)
    ensures
        attr_result(r) == attribute_outcome(stream_tokens(*args), syn_item_struct(stream_tokens(*input))),
{
    let a = tokens_of(args);
    if let Err(e) = parse_wrap_args(&a) {
        return Err(AttrError::Args(e));
    }
    let shape = match read_struct(input) {
        Ok(s) => s,
        Err(e) => {
            return Err(AttrError::Parse(e));
        },
    };
    if let Some(e) = shape_error(&shape) {
        return Err(e);
    }
    Ok(abstract_struct(args, input))
}

} // verus!
