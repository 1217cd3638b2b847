# seq_expand

The expansion engine of a `seq!` macro:

```rust
seq!(N in 0..4 { fn f~N() -> usize { N } });     // f0 .. f3
seq!(N in 0..=2 { enum E { #(V~N,)* } });          // one enum with V0, V1, V2
```

The body is split into sections (plain tokens, `a ~ N` concatenations, the
loop variable, groups and `#( ... )*` repetition groups), checked, and
expanded. Everything in `src/` is verified with Verus against a model of the
token stream; `app/` converts `proc_macro2` token streams to and from that
model and turns parse errors into compile errors.

- `src/tokens.rs` — token trees as plain values and their model.
- `src/syntax.rs` — what is taken from `syn` and `unicode-ident`; literal text and
  identifier names.
- `src/cursor.rs` — positions in a token stream, parse errors.
- `src/sections.rs` — the section types and their model.
- `src/parse.rs` — the section parsers.
- `src/context.rs` — the loop header (`N in a..b`, `N in a..=b`).
- `src/visit.rs` — the repetition check and the placement check.
- `src/expand.rs` — expansion of sections.
- `src/seq_tree.rs` — a whole invocation.
- `src/laws.rs`, `src/plain.rs` — properties of the library as a whole.
