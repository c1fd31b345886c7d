use abstract_struct::attribute::{
    abstract_struct, expand_shape, expand_struct, parse_wrap_args, read_struct, shape_error,
    try_abstract_struct, ArgsError, AttrError, ParamTokens, StructShape,
};
use abstract_struct::token::{Delimiter, Spacing, Token};
use proc_macro2::{TokenStream, TokenTree};

/// The token stream of Rust source.
fn ts(src: &str) -> TokenStream {
    src.parse::<TokenStream>().unwrap()
}

/// The library's token trees for Rust source.
fn toks(src: &str) -> Vec<Token> {
    fn conv(ts: TokenStream) -> Vec<Token> {
        ts.into_iter()
            .map(|tt| match tt {
                TokenTree::Ident(i) => Token::Ident(i.to_string()),
                TokenTree::Punct(p) => Token::Punct(
                    p.as_char(),
                    match p.spacing() {
                        proc_macro2::Spacing::Joint => Spacing::Joint,
                        proc_macro2::Spacing::Alone => Spacing::Alone,
                    },
                ),
                TokenTree::Literal(l) => Token::Literal(l.to_string()),
                TokenTree::Group(g) => Token::Group(
                    match g.delimiter() {
                        proc_macro2::Delimiter::Parenthesis => Delimiter::Parenthesis,
                        proc_macro2::Delimiter::Brace => Delimiter::Brace,
                        proc_macro2::Delimiter::Bracket => Delimiter::Bracket,
                        proc_macro2::Delimiter::None => Delimiter::Invisible,
                    },
                    conv(g.stream()),
                ),
            })
            .collect()
    }
    conv(ts(src))
}

/// The token texts of the library's token trees, ignoring spacing.
fn texts(v: &[Token]) -> Vec<String> {
    let mut out = Vec::new();
    for t in v {
        match t {
            Token::Ident(s) | Token::Literal(s) => out.push(s.clone()),
            Token::Punct(c, _) => out.push(c.to_string()),
            Token::Group(d, inner) => {
                let (o, c) = match d {
                    Delimiter::Parenthesis => ("(", ")"),
                    Delimiter::Brace => ("{", "}"),
                    Delimiter::Bracket => ("[", "]"),
                    Delimiter::Invisible => ("", ""),
                };
                out.push(o.to_string());
                out.extend(texts(inner));
                out.push(c.to_string());
            }
        }
    }
    out
}

/// The token texts of Rust source, ignoring spacing.
fn src_texts(src: &str) -> Vec<String> {
    texts(&toks(src))
}

const SIMPLE: &str = "pub struct Simple<'a, T: Clone, U: PartialEq + 'a>(T, &'a U);";

#[test]
fn custom_wrap_method_name_example() {
    let out = abstract_struct(&ts("wrap = mywrap"), &ts(SIMPLE));
    let expected = "
        pub struct Simple<'a, T: Clone, U: PartialEq + 'a>(T, &'a U);
        impl<'a, T: Clone, U: PartialEq + 'a> From<abstract_struct::Wrapper<Simple<'a, T, U>>> for Simple<'a, T, U> {
            fn from(w: abstract_struct::Wrapper<Simple<'a, T, U>>) -> Simple<'a, T, U> { w.0 }
        }
        #[allow(dead_code)]
        impl<'a, T: Clone, U: PartialEq + 'a> Simple<'a, T, U> {
            fn mywrap(self) -> abstract_struct::Wrapper<Self> { abstract_struct::Wrapper(self) }
        }
        pub trait SimpleAbstract<'a,> : std::ops::Deref<Target = Simple<'a, <Self as SimpleAbstract<'a,>>::T, <Self as SimpleAbstract<'a,>>::U,>>
            + std::convert::Into<Simple<'a, <Self as SimpleAbstract<'a,>>::T, <Self as SimpleAbstract<'a,>>::U,>> {
            type T: Clone;
            type U: PartialEq + 'a;
        }
        impl<'a, T: Clone, U: PartialEq + 'a> SimpleAbstract<'a,> for abstract_struct::Wrapper<Simple<'a, T, U>> {
            type T = T;
            type U = U;
        }";
    assert_eq!(texts(&out), src_texts(expected));
}

#[test]
fn default_wrap_and_plain_struct() {
    let out = abstract_struct(&ts(""), &ts("struct P { x: u8 }"));
    let expected = "
        struct P { x: u8 }
        impl From<abstract_struct::Wrapper<P>> for P {
            fn from(w: abstract_struct::Wrapper<P>) -> P { w.0 }
        }
        #[allow(dead_code)]
        impl P { fn wrap(self) -> abstract_struct::Wrapper<Self> { abstract_struct::Wrapper(self) } }
        trait PAbstract<> : std::ops::Deref<Target = P<>> + std::convert::Into<P<>> { }
        impl PAbstract<> for abstract_struct::Wrapper<P> { }";
    assert_eq!(texts(&out), src_texts(expected));
}

#[test]
fn nowrap_leaves_out_the_method() {
    let out = abstract_struct(&ts("nowrap"), &ts("pub(crate) struct Q<T = u8>(T);"));
    let expected = "
        pub(crate) struct Q<T = u8>(T);
        impl<T> From<abstract_struct::Wrapper<Q<T>>> for Q<T> {
            fn from(w: abstract_struct::Wrapper<Q<T>>) -> Q<T> { w.0 }
        }
        pub(crate) trait QAbstract<> : std::ops::Deref<Target = Q<<Self as QAbstract<>>::T,>>
            + std::convert::Into<Q<<Self as QAbstract<>>::T,>> { type T; }
        impl<T> QAbstract<> for abstract_struct::Wrapper<Q<T>> { type T = T; }";
    assert_eq!(texts(&out), src_texts(expected));
}

#[test]
fn where_clause_is_rejected() {
    let r = try_abstract_struct(&ts(""), &ts("struct W<T> where T: Copy { t: T }"));
    assert!(matches!(r, Err(AttrError::WhereClauseUnsupported)));
}

#[test]
fn non_struct_is_rejected_by_syn() {
    let r = try_abstract_struct(&ts(""), &ts("fn f() {}"));
    assert!(matches!(r, Err(AttrError::Parse(_))));
}

#[test]
fn args_errors() {
    let cases: Vec<(&str, ArgsError)> = vec![
        ("=", ArgsError::ExpectedIdentifierFirst),
        ("nowrap x", ArgsError::NothingAfterNowrap),
        ("wrap", ArgsError::ExpectedEquals),
        ("wrap x", ArgsError::ExpectedEquals),
        ("wrap =", ArgsError::ExpectedWrapMethodName),
        ("wrap = 1", ArgsError::ExpectedWrapMethodName),
        ("other", ArgsError::InvalidArgument),
    ];
    for (args, err) in cases {
        assert_eq!(parse_wrap_args(&toks(args)).unwrap_err(), err);
        let r = try_abstract_struct(&ts(args), &ts("struct P;"));
        assert!(matches!(r, Err(AttrError::Args(e)) if e == err));
    }
}

#[test]
fn wrap_args() {
    assert_eq!(parse_wrap_args(&vec![]).unwrap(), Some("wrap".to_string()));
    assert_eq!(parse_wrap_args(&toks("nowrap")).unwrap(), None);
    assert_eq!(parse_wrap_args(&toks("wrap = w2 ignored")).unwrap(), Some("w2".to_string()));
}

fn shape(has_where: bool) -> StructShape {
    StructShape {
        item: toks("SRC"),
        vis: toks("pub"),
        ident: "S".to_string(),
        impl_generics: toks("<'a, T: Copy>"),
        ty_generics: toks("<'a, T>"),
        has_where,
        lifetimes: vec![ParamTokens { attrs: vec![], name: toks("'a"), bounds: vec![] }],
        type_params: vec![ParamTokens { attrs: vec![], name: toks("T"), bounds: toks("Copy") }],
    }
}

const SHAPE_EXPANSION: &str = "SRC
    impl<'a, T: Copy> From<abstract_struct::Wrapper<S<'a, T>>> for S<'a, T> {
        fn from(w: abstract_struct::Wrapper<S<'a, T>>) -> S<'a, T> { w.0 }
    }
    pub trait SAbstract<'a,> : std::ops::Deref<Target = S<'a, <Self as SAbstract<'a,>>::T,>>
        + std::convert::Into<S<'a, <Self as SAbstract<'a,>>::T,>> { type T: Copy; }
    impl<'a, T: Copy> SAbstract<'a,> for abstract_struct::Wrapper<S<'a, T>> { type T = T; }";

#[test]
fn expand_struct_from_a_given_shape() {
    let out = expand_struct(&None, &shape(false));
    assert_eq!(texts(&out), src_texts(SHAPE_EXPANSION));
}

#[test]
fn expand_shape_rejects_only_a_where_clause() {
    assert!(matches!(expand_shape(&None, &shape(true)), Err(AttrError::WhereClauseUnsupported)));
    let out = expand_shape(&None, &shape(false)).unwrap();
    assert_eq!(texts(&out), src_texts(SHAPE_EXPANSION));
}

#[test]
fn struct_is_kept_first() {
    let src = "pub struct K<T: Copy>(T);";
    let out = abstract_struct(&ts(""), &ts(src));
    let kept = src_texts(src);
    assert_eq!(texts(&out)[..kept.len()], kept[..]);
}

#[test]
fn read_struct_gives_the_parts() {
    let sh = read_struct(&ts("pub struct R<#[allow(unused)] 'a: 'static, T: Copy = u8> { r: &'a T }")).unwrap();
    assert_eq!(texts(&sh.vis), src_texts("pub"));
    assert_eq!(sh.ident, "R");
    assert_eq!(texts(&sh.impl_generics), src_texts("<#[allow(unused)] 'a: 'static, T: Copy>"));
    assert_eq!(texts(&sh.ty_generics), src_texts("<'a, T>"));
    assert!(!sh.has_where);
    assert_eq!(sh.lifetimes.len(), 1);
    assert_eq!(texts(&sh.lifetimes[0].attrs), src_texts("#[allow(unused)]"));
    assert_eq!(texts(&sh.lifetimes[0].name), src_texts("'a"));
    assert_eq!(texts(&sh.lifetimes[0].bounds), src_texts("'static"));
    assert_eq!(sh.type_params.len(), 1);
    assert_eq!(texts(&sh.type_params[0].name), src_texts("T"));
    assert_eq!(texts(&sh.type_params[0].bounds), src_texts("Copy"));
}

#[test]
fn attributes_of_parameters_are_kept() {
    let out = abstract_struct(&ts("nowrap"), &ts("struct G<#[allow(unused)] 'a, #[allow(unused)] T>(&'a T);"));
    let expected = "
        struct G<#[allow(unused)] 'a, #[allow(unused)] T>(&'a T);
        impl<#[allow(unused)] 'a, #[allow(unused)] T> From<abstract_struct::Wrapper<G<'a, T>>> for G<'a, T> {
            fn from(w: abstract_struct::Wrapper<G<'a, T>>) -> G<'a, T> { w.0 }
        }
        trait GAbstract<#[allow(unused)] 'a,>
            : std::ops::Deref<Target = G<#[allow(unused)] 'a, <Self as GAbstract<#[allow(unused)] 'a,>>::T,>>
            + std::convert::Into<G<#[allow(unused)] 'a, <Self as GAbstract<#[allow(unused)] 'a,>>::T,>> {
            type #[allow(unused)] T;
        }
        impl<#[allow(unused)] 'a, #[allow(unused)] T> GAbstract<#[allow(unused)] 'a,> for abstract_struct::Wrapper<G<'a, T>> {
            type T = T;
        }";
    assert_eq!(texts(&out), src_texts(expected));
}

#[test]
fn raw_struct_name_is_rejected_before_the_where_clause() {
    let r = try_abstract_struct(&ts(""), &ts("struct r#S<T> where T: Copy { t: T }"));
    assert!(matches!(r, Err(AttrError::RawStructName)));
}

const A: Spacing = Spacing::Alone;
const J: Spacing = Spacing::Joint;

/// The spacing of each `>` of `v`, in order, groups included.
fn closing_angles(v: &[Token], out: &mut Vec<Spacing>) {
    for t in v {
        match t {
            Token::Punct('>', sp) => out.push(*sp),
            Token::Group(_, inner) => closing_angles(inner, out),
            _ => {}
        }
    }
}

#[test]
fn double_closing_angles_are_joint_then_alone() {
    let out = abstract_struct(&ts("nowrap"), &ts("struct Q<T>(T);"));
    let mut sp = Vec::new();
    closing_angles(&out, &mut sp);
    let expected = vec![
        A, // the struct
        A, A, J, A, A, A, A, A, A, // the `From` impl
        A, J, A, J, A, J, A, J, A, // the trait
        A, A, A, A, // its impl
    ];
    assert_eq!(sp, expected);
}

#[test]
fn shape_error_order() {
    let mut sh = shape(true);
    assert!(matches!(shape_error(&sh), Some(AttrError::WhereClauseUnsupported)));
    sh.ident = "r#S".to_string();
    assert!(matches!(shape_error(&sh), Some(AttrError::RawStructName)));
    assert!(shape_error(&shape(false)).is_none());
}

#[test]
fn try_abstract_struct_agrees_on_accepted_input() {
    let (args, input) = (ts("wrap = w"), ts(SIMPLE));
    let checked = try_abstract_struct(&args, &input).unwrap();
    assert_eq!(texts(&checked), texts(&abstract_struct(&args, &input)));
}
