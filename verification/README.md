# abstract_struct

Generates, for a struct, a trait that hides the struct's generic parameters.

- `src/token.rs`: token trees as plain values, and their models.
- `src/function_like.rs`: the function-like form, `abstract_struct! { struct .. trait { .. } }`,
  which renames the struct to `<Name>Concrete` and names the trait `<Name>`.
- `src/attribute.rs`: the attribute form, `#[abstract_struct]`, which adds
  `<Name>Abstract`, a `From` impl and a wrap method; `syn` reads the struct, and the expansion is built as token trees.
- Each function that rejects some inputs (`abstract_struct`, `Struct::new`,
  `TypeConstraints::new`, `iter_type`, `strip_trait_body`) requires an input it
  accepts; its `try_` form takes any input and says why it rejects one.
- `src/laws.rs`: properties that hold for every input.
- `app/`: the entry points over `proc_macro2` token streams; they call the `try_` forms
  and panic with the macro's message on a rejected input.
