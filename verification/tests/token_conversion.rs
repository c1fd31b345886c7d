use abstract_struct::token::{tokens_of, Delimiter, Spacing, Token};
use proc_macro2::TokenStream;

fn describe(v: &[Token]) -> Vec<String> {
    v.iter()
        .map(|t| match t {
            Token::Ident(s) => format!("ident {}", s),
            Token::Punct(c, Spacing::Joint) => format!("joint {}", c),
            Token::Punct(c, Spacing::Alone) => format!("alone {}", c),
            Token::Literal(s) => format!("literal {}", s),
            Token::Group(d, inner) => format!("{:?} [{}]", d, describe(inner).join(", ")),
        })
        .collect()
}

#[test]
fn tokens_of_reads_each_tree() {
    let ts = "r#x :: y ( 'a , \"s\" ) [ 1u8 ] { }".parse::<TokenStream>().unwrap();
    let v = tokens_of(&ts);
    assert_eq!(
        describe(&v),
        vec![
            "ident r#x",
            "joint :",
            "alone :",
            "ident y",
            "Parenthesis [joint ', ident a, alone ,, literal \"s\"]",
            "Bracket [literal 1u8]",
            "Brace []",
        ]
    );
    assert!(matches!(v[4], Token::Group(Delimiter::Parenthesis, _)));
}

#[test]
fn tokens_of_empty_stream() {
    assert!(tokens_of(&TokenStream::new()).is_empty());
}
