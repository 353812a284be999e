# muoni

The core of the muoni language.

- `src/ast.rs`: lexemes and syntax trees.
- `src/parser.rs`: the parser from lexemes to a scope of statements, with the
  bracket matching of atoms and the precedence levels of binary operators.
- `src/bignum.rs`: big integers as two's-complement bytes, whose arithmetic is
  done by `num_bigint`, and the proof that the shortest such form is unique.
- `src/value.rs`: exact numbers and values, and their addition, which widens
  an overflowing `i64` sum to a big integer; with the laws of that addition.
- `app/`: numbers that hold floating-point values and float matrices
  (`nalgebra`, `num_complex`), their addition, and the dynamically typed
  `Calc` values.
