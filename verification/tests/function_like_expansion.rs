use abstract_struct::function_like::{
    abstract_struct, iter_type, parse_entry_at, strip_trait_body, strip_trait_impl_body,
    try_abstract_struct, try_iter_type, try_strip_trait_body, ExpandError, Struct, TypeConstraint,
    TypeConstraints,
};
use abstract_struct::token::{Delimiter, Spacing, Token};
use proc_macro2::{TokenStream, TokenTree};

fn tokens(src: &str) -> Vec<Token> {
    convert(src.parse::<TokenStream>().unwrap())
}

fn convert(ts: TokenStream) -> Vec<Token> {
    ts.into_iter()
        .map(|tt| match tt {
            TokenTree::Ident(i) => Token::Ident(i.to_string()),
            TokenTree::Punct(p) => Token::Punct(
                p.as_char(),
                match p.spacing() {
                    proc_macro2::Spacing::Joint => Spacing::Joint,
                    proc_macro2::Spacing::Alone => Spacing::Alone,
                },
            ),
            TokenTree::Literal(l) => Token::Literal(l.to_string()),
            TokenTree::Group(g) => Token::Group(
                match g.delimiter() {
                    proc_macro2::Delimiter::Parenthesis => Delimiter::Parenthesis,
                    proc_macro2::Delimiter::Brace => Delimiter::Brace,
                    proc_macro2::Delimiter::Bracket => Delimiter::Bracket,
                    proc_macro2::Delimiter::None => Delimiter::Invisible,
                },
                convert(g.stream()),
            ),
        })
        .collect()
}

/// The token texts, with the groups' delimiters, ignoring spacing.
fn texts(v: &[Token]) -> Vec<String> {
    let mut out = Vec::new();
    for t in v {
        match t {
            Token::Ident(s) | Token::Literal(s) => out.push(s.clone()),
            Token::Punct(c, _) => out.push(c.to_string()),
            Token::Group(d, inner) => {
                let (o, c) = match d {
                    Delimiter::Parenthesis => ("(", ")"),
                    Delimiter::Brace => ("{", "}"),
                    Delimiter::Bracket => ("[", "]"),
                    Delimiter::Invisible => ("«", "»"),
                };
                out.push(o.to_string());
                out.extend(texts(inner));
                out.push(c.to_string());
            }
        }
    }
    out
}

fn expand(src: &str) -> Result<Vec<String>, ExpandError> {
    try_abstract_struct(&tokens(src)).map(|v| texts(&v))
}

fn same(src: &str) -> Vec<String> {
    texts(&tokens(src))
}

#[test]
fn simple_example_expands() {
    let input = "
        #[derive(Clone)]
        pub struct Simple<A: T<u32, u64>, B, C> where
            A: Clone + Send + 'static,
            B: Iterator<Item=u32> + Clone,
            C: From<u128>,
        { a: A, b: B, c: C, }
        pub trait {
            type A: [A] = A;
            fn a1(&self) -> Self::A { self.a }
            fn a2(&self) -> Self::A { self.a }
        }";
    let expected = "
        #[derive(Clone)]
        pub struct SimpleConcrete<A: T<u32, u64>, B, C> where
            A: Clone + Send + 'static,
            B: Iterator<Item=u32> + Clone,
            C: From<u128>,
        { a: A, b: B, c: C, }
        pub trait Simple {
            type A: T<u32, u64> + Clone + Send + 'static;
            fn a1(&self) -> Self::A;
            fn a2(&self) -> Self::A;
        }
        impl<A: T<u32, u64>, B, C> Simple for SimpleConcrete<A, B, C,> where
            A: Clone + Send + 'static,
            B: Iterator<Item=u32> + Clone,
            C: From<u128>,
        {
            type A = A;
            fn a1(&self) -> Self::A { self.a }
            fn a2(&self) -> Self::A { self.a }
        }";
    assert_eq!(expand(input).unwrap(), same(expected));
}

#[test]
fn struct_without_generics() {
    let out = expand("struct Plain { x: u8 } trait { fn get(&self) -> u8 { self.x } }").unwrap();
    let expected = same(
        "struct PlainConcrete { x: u8 } trait Plain { fn get(&self) -> u8; }
         impl Plain for PlainConcrete<> { fn get(&self) -> u8 { self.x } }",
    );
    assert_eq!(out, expected);
}

#[test]
fn unsafe_trait_gets_unsafe_impl() {
    let out = expand("struct S<'a> { r: &'a u8 } pub unsafe trait { }").unwrap();
    let expected = same(
        "struct SConcrete<'a> { r: &'a u8 } pub unsafe trait S { }
         unsafe impl<'a> S for SConcrete<'a,> { }",
    );
    assert_eq!(out, expected);
}

#[test]
fn associated_const_loses_its_value() {
    let out = expand("struct S<T: Copy> { t: T } trait { const N: usize = 3; type X: [T] = T; }").unwrap();
    let expected = same(
        "struct SConcrete<T: Copy> { t: T } trait S { const N: usize; type X: Copy; }
         impl<T: Copy> S for SConcrete<T,> { const N: usize = 3; type X = T; }",
    );
    assert_eq!(out, expected);
}

#[test]
fn qualified_and_path_bounds_are_skipped() {
    let out = expand(
        "struct S<F> where <F as Tr>::Out: Copy, F::Output: Copy, F: Clone { f: F } trait { type X: [F]; }",
    )
    .unwrap();
    let expected = same(
        "struct SConcrete<F> where <F as Tr>::Out: Copy, F::Output: Copy, F: Clone { f: F } trait S { type X: Clone; }
         impl<F> S for SConcrete<F,> where <F as Tr>::Out: Copy, F::Output: Copy, F: Clone { type X }",
    );
    assert_eq!(out, expected);
}

#[test]
fn where_bounds_join_the_declared_bounds() {
    let out = expand("struct S<T: Copy> where T: Clone { t: T } trait { type X: [T]; }").unwrap();
    let expected = same(
        "struct SConcrete<T: Copy> where T: Clone { t: T } trait S { type X: Copy + Clone; }
         impl<T: Copy> S for SConcrete<T,> where T: Clone { type X }",
    );
    assert_eq!(out, expected);
}

#[test]
fn error_no_brace_group() {
    assert_eq!(expand("struct S;"), Err(ExpandError::UnexpectedEndOfInput));
}

#[test]
fn error_no_struct_keyword() {
    assert_eq!(expand("enum S { A }"), Err(ExpandError::StructKeywordNotFound));
}

#[test]
fn error_struct_without_name() {
    assert_eq!(expand("struct { }"), Err(ExpandError::ExpectedStructName));
}

#[test]
fn error_malformed_generics() {
    assert_eq!(expand("struct S< { } trait { }"), Err(ExpandError::MalformedGenerics));
}

#[test]
fn error_too_many_closing_angles() {
    assert_eq!(expand("struct S<T: A>>> { } trait { }"), Err(ExpandError::TooManyClosingAngles));
}

#[test]
fn error_lifetime_without_name() {
    let input = vec![
        Token::Ident("struct".to_string()),
        Token::Ident("S".to_string()),
        Token::Punct('<', Spacing::Alone),
        Token::Punct('\'', Spacing::Joint),
        Token::Punct(',', Spacing::Alone),
        Token::Ident("T".to_string()),
        Token::Punct('>', Spacing::Alone),
        Token::Group(Delimiter::Brace, vec![]),
        Token::Ident("trait".to_string()),
        Token::Group(Delimiter::Brace, vec![]),
    ];
    assert!(matches!(try_abstract_struct(&input), Err(ExpandError::ExpectedLifetimeName)));
}

#[test]
fn error_default_type_parameter() {
    assert_eq!(
        expand("struct S<T = u8> { } trait { }"),
        Err(ExpandError::UnexpectedTokenAfterParameter)
    );
}

#[test]
fn error_const_generic() {
    assert_eq!(
        expand("struct S<5> { } trait { }"),
        Err(ExpandError::UnsupportedGenericParameter)
    );
}

#[test]
fn error_no_trait() {
    assert_eq!(expand("struct S { }"), Err(ExpandError::UnexpectedEndOfInput));
    assert_eq!(expand("struct S { } trait"), Err(ExpandError::UnexpectedEndOfInput));
}

#[test]
fn error_trait_body_not_a_group() {
    assert_eq!(expand("struct S { } trait Name { }"), Err(ExpandError::ExpectedTraitBody));
}

#[test]
fn error_empty_brackets() {
    assert_eq!(
        expand("struct S<T> { } trait { type X: []; }"),
        Err(ExpandError::NoTypeSpecified)
    );
}

#[test]
fn error_brackets_without_name() {
    assert_eq!(
        expand("struct S<T> { } trait { type X: [&T]; }"),
        Err(ExpandError::ExpectedTypeName)
    );
}

#[test]
fn error_brackets_name_unknown() {
    assert_eq!(
        expand("struct S<T> { } trait { type X: [U]; }"),
        Err(ExpandError::NotAGenericParameter)
    );
}

#[test]
fn struct_new_takes_up_to_first_brace() {
    let input = tokens("pub struct S { a: u8 } trait { }");
    let s = Struct::new(&input);
    assert_eq!(s.token_pos, 1);
    assert_eq!(texts(&s.def), same("pub struct S { a: u8 }"));
}

#[test]
fn iter_type_stops_at_the_outer_separator() {
    let input = tokens("Vec<A, B>, C");
    let (ty, next) = iter_type(&input, 0, input.len(), ',');
    assert_eq!(texts(&ty), same("Vec<A, B>"));
    assert_eq!(next, 7);
    let (rest, end) = iter_type(&input, next, input.len(), ',');
    assert_eq!(texts(&rest), same("C"));
    assert_eq!(end, input.len());
}

#[test]
fn parse_entry_reads_a_lifetime() {
    let input = tokens("'a: 'b, T");
    let (c, next) = parse_entry_at(&input, 0, input.len()).unwrap();
    let c = c.unwrap();
    assert!(c.is_lifetime);
    assert_eq!(c.name, "a");
    assert_eq!(texts(&c.def), same("'b"));
    assert_eq!(next, 6);
}

#[test]
fn type_constraints_vars_in_order() {
    let input = tokens("'a, T: Copy, U");
    let cs = TypeConstraints::new(&input, 0, input.len());
    assert_eq!(cs.0.len(), 3);
    assert_eq!(texts(&cs.vars()), same("'a, T, U,"));
}

#[test]
fn merge_joins_bounds_once() {
    let input = tokens("T: Copy, U, T");
    let mut cs = TypeConstraints::new(&input, 0, input.len());
    let wc = tokens("T: Clone, U: Send");
    let other = TypeConstraints::new(&wc, 0, wc.len());
    cs.merge(other);
    let defs: Vec<Vec<String>> = cs.0.iter().map(|c: &TypeConstraint| texts(&c.def)).collect();
    assert_eq!(defs, vec![same("Copy + Clone"), same("Send"), vec![]]);
    let names: Vec<&str> = cs.0.iter().map(|c: &TypeConstraint| c.name.as_str()).collect();
    assert_eq!(names, vec!["T", "U", "T"]);
}

#[test]
fn merge_with_unrelated_where_clause_changes_nothing() {
    let input = tokens("T: Copy, U");
    let mut cs = TypeConstraints::new(&input, 0, input.len());
    let wc = tokens("V: Clone");
    let other = TypeConstraints::new(&wc, 0, wc.len());
    cs.merge(other);
    let defs: Vec<Vec<String>> = cs.0.iter().map(|c: &TypeConstraint| texts(&c.def)).collect();
    assert_eq!(defs, vec![same("Copy"), vec![]]);
}

#[test]
fn trait_body_without_items_is_kept() {
    let body = tokens("# [doc = \"x\"] ; ;");
    let cs = TypeConstraints(Vec::new());
    assert_eq!(texts(&strip_trait_body(&body, &cs)), texts(&body));
}

#[test]
fn impl_body_without_types_is_kept() {
    let body = tokens("fn f() { 1 } const C: u8 = 2;");
    assert_eq!(texts(&strip_trait_impl_body(&body)), texts(&body));
}

#[test]
fn vars_read_back_without_bounds() {
    let input = tokens("'a: 'static, T: Copy + Clone, U");
    let cs = TypeConstraints::new(&input, 0, input.len());
    let vars = cs.vars();
    let again = TypeConstraints::new(&vars, 0, vars.len());
    assert_eq!(again.0.len(), 3);
    for (c, d) in cs.0.iter().zip(again.0.iter()) {
        assert_eq!(c.name, d.name);
        assert_eq!(c.is_lifetime, d.is_lifetime);
        assert!(d.def.is_empty());
    }
}

#[test]
fn trait_items_are_stripped_one_by_one() {
    let input = tokens("T: Copy");
    let cs = TypeConstraints::new(&input, 0, input.len());
    let items = ["type A: [T] = T;", "fn f(&self) -> u8 { 1 }", "const C: u8 = 2;", "#"];
    let whole = tokens(&items.concat());
    let mut each = Vec::new();
    for item in items {
        each.extend(texts(&strip_trait_body(&tokens(item), &cs)));
    }
    assert_eq!(texts(&strip_trait_body(&whole, &cs)), each);
    assert_eq!(each, same("type A: Copy; fn f(&self) -> u8; const C: u8; #"));
}

#[test]
fn impl_body_stripped_twice_is_stripped_once() {
    let body = tokens("type A: Copy = u8; fn f() {} type B where Self: Sized = A;");
    let once = strip_trait_impl_body(&body);
    assert_eq!(texts(&once), same("type A = u8; fn f() {} type B = A;"));
    assert_eq!(texts(&strip_trait_impl_body(&once)), texts(&once));
}

#[test]
fn error_raw_struct_name() {
    assert_eq!(expand("struct r#S { } trait { }"), Err(ExpandError::RawStructName));
}

#[test]
fn abstract_struct_on_accepted_input() {
    let input = tokens("struct S<T: Copy> { t: T } trait { type X: [T]; }");
    let out = abstract_struct(&input);
    assert_eq!(texts(&out), expand("struct S<T: Copy> { t: T } trait { type X: [T]; }").unwrap());
    assert_eq!(
        texts(&out),
        same("struct SConcrete<T: Copy> { t: T } trait S { type X: Copy; } impl<T: Copy> S for SConcrete<T,> { type X }")
    );
}

#[test]
fn helpers_report_what_they_cannot_read() {
    let input = tokens("a > b, c");
    assert_eq!(try_iter_type(&input, 0, input.len(), ',').unwrap_err(), ExpandError::TooManyClosingAngles);
    assert_eq!(Struct::try_new(&tokens("struct S;")).err(), Some(ExpandError::UnexpectedEndOfInput));
    assert_eq!(Struct::try_new(&tokens("enum E {}")).err(), Some(ExpandError::StructKeywordNotFound));
    let d = tokens("T = u8");
    assert_eq!(TypeConstraints::try_new(&d, 0, d.len()).err(), Some(ExpandError::UnexpectedTokenAfterParameter));
    let c = tokens("const N: usize");
    assert_eq!(TypeConstraints::try_new(&c, 0, c.len()).err(), Some(ExpandError::UnexpectedTokenAfterParameter));
    let cs = TypeConstraints(Vec::new());
    assert_eq!(try_strip_trait_body(&tokens("type A: [];"), &cs).unwrap_err(), ExpandError::NoTypeSpecified);
    assert_eq!(try_strip_trait_body(&tokens("type A: [T];"), &cs).unwrap_err(), ExpandError::NotAGenericParameter);
}
