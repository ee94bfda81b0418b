# rlox

A tree-walking interpreter for Lox, with arrays, whose scanner, parser, scope
store and evaluation rules are proved with Verus.

```
var array = [1, 2, 3];
print array[1];      // 2
array[2] = 1;
push(array, 5);
print array;         // [1, 2, 1, 5]
print len("Hello");  // 5
```

## Layout

- `src/` — the verified library:
  - `lexer.rs`: the scanner, stated as a function from characters to tokens or errors;
  - `grammar.rs`: the grammar and its error recovery as spec functions over token
    sequences; `parser.rs` and `parser/` implement it and are proved to follow it;
  - `environment.rs`: the store of scopes, with laws on lookups, definitions and
    assignments;
  - `interpreter.rs`: what each operator does with the kinds of its operands, call
    checks, and the running program's scopes, resolved variables and arrays;
  - `arrays.rs`: the store of shared arrays, with laws on reads after writes and
    on pushes;
  - `natives.rs`: the `clock`, `len` and `push` functions;
  - `pipeline.rs`, `errors.rs`, `text.rs`: from source text to statements, error
    reports, and string helpers.
- `app/` — the command-line program: file and prompt handling, the values a
  program computes with (floating-point numbers), and the walk over statements and
  expressions. The walk does the floating-point arithmetic and comparisons, value
  equality and printing, and the loops over statements; it takes operator, call,
  scope, variable, short-circuit and array decisions from the library.
- `tests/` — tests of the library on concrete programs and values.
