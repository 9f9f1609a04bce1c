# simplicityhl

The parser of the SimplicityHL language: it turns the token tree that the grammar
produces into the abstract syntax tree of a program, and reports the first error it
meets with the area of the source file where it happened.

Every parse function is verified with Verus against a specification of what it gives:

- `src/tree.rs`: the token tree (`Pair`), the shape that the grammar gives it (`Pair::wf`)
  and an executable check of that shape.
- `src/span.rs`, `src/text.rs`, `src/num.rs`: positions and areas, operations on token
  text, powers of two.
- `src/ast.rs`, `src/types.rs`, `src/pattern.rs`, `src/error.rs`: the syntax tree, types,
  patterns and errors, each with the mathematical value it stands for.
- `src/parse.rs`: what each parse gives (`*_spec` functions) and the parse functions.
- `src/traverse.rs`: types and patterns, read by a walk through their trees in post-order
  with a stack.
- `src/positions.rs`: what a parse gives does not depend on where its text stands, apart
  from the areas that the results carry.
- `src/hex.rs`: hexadecimal decoding, done by the `simplicity-lang` crate.
- `src/laws.rs`: properties of every parse.
- `app/`: turns the pairs of `pest` into a token tree and hands it to the parser.

The syntax-tree types derive `Debug`, `PartialEq`, `Eq` and `Hash`. `Clone` is derived only
on the names and on `Either`: Verus does not accept a derived `Clone` on a type with a type
invariant (`Bits`, `Bytes`, `Match`) nor on the recursive types (`AliasedType`, `Pattern`,
the expression types), so those types, and the ones that hold them, have none; the names
and `AliasedType` offer a `copy` method with a contract instead.
