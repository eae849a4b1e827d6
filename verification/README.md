# why_lib

The front end of the Y language, verified with Verus: a lexer, a recursive descent parser
with parser combinators, and a type checker with scopes, inference of unknown types and a
final validation that every type is known.

Layout:

- `src/lexer.rs`: tokens and the lexer; a successful lexing spells the whole source.
- `src/parser/`: the syntax tree (`ast/`), the parse state, the combinators, the parsers of
  expressions, statements and programs, and the rendering of trees to the lexemes they are
  spelled by, which the parsers' contracts are stated over.
- `src/typechecker/`: types and their resolution from type names, lexical scopes, the typing
  rules, the checker itself (`check.rs`, `program.rs`), the validation of checked trees and
  the error messages.
- `tests/`: tests of the library.
- `app/`: serialisable copies of the syntax tree, the types and the errors, with `Display`
  for the errors.
