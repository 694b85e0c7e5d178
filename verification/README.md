# bpaf_derive

The derive macro of the `bpaf` command line parser, as a Verus library: it
reads a struct or an enum with its `#[bpaf(..)]` and doc attributes and writes
the function that builds the parser, and Verus proves that what it reads and
writes is what the contracts state.

- `src/tokens.rs`: the token trees the macro reads, and the generated code,
  whose leaves may stand for what the field generator writes for a field.
- `src/text.rs`: default names (snake and kebab case), help text sections,
  white space, decimal numbers.
- `src/model.rs`: the parsed input and the tree of parsers, each with its
  mathematical value.
- `src/source.rs`: tokens as source text; asking `syn` which parenthesized
  groups are expressions, and reading an argument by those answers.
- `src/syntax.rs`: attributes, visibility, identifiers, literals and field
  lists.
- `src/attrs.rs`: what the attributes of the type and of a variant say.
- `src/top.rs`: the whole input, into the tree of parsers.
- `src/codegen.rs`: the generated function; `expand_with`, the whole derive
  by given answers, and `expand`, which asks `syn` first.
- `src/laws.rs`: properties that hold of every input.
- `app/lib.rs`: the procedural macro's edge, converting `proc_macro2` token
  streams to and from the library's tokens.
