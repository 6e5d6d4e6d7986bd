# kala

Building blocks of Kala, a scripting layer that runs Jessie (a safe subset of
JavaScript), written in Verus: each function carries a contract, and Verus proves
that the code meets it.

Layout of `src/`:

- `types`, `trie`, `arena`, `text`, `map_pool`: shared utilities (owned and shared
  slices and strings, a radix trie keyed by strings, a bump allocator, string appends,
  a pool of cleared `fxhash` maps).
- `slot`, `constant`, `pointer`, `number_slot`, `reference`, `string_slot`: the
  tagged 64-bit value representation and the heap cells it points to.
- `instruction`, `vm`: the instruction encoding and the register machine that runs it.
- `decimal`, `sminumber`: fixed-point decimals and small-integer-or-decimal numbers.
- `value`, `runtime`, `vm_value`, `mock`, `vm_runtime`: the value types of the
  interpreters (numbers, strings, booleans) and their operations.
- `common`, `lexical`, `ast`, `eval`: the syntax tree and the evaluation of expressions
  against the interpreter's scopes.
- `context`, `declare`, `statement`: the interpreter's state (scopes, the store of
  objects that values refer to, and the pending `break`/`continue`/`return` signal), the binding of declarations, and the running of
  statements, each loop with a budget of rounds.
- `scope_analysis`: the variables an expression reads and the free variables of a block.
- `environment_record`, `evaluation_context`: variable scopes, kept in a `hashbrown` map.
- `arith`: integer division and remainder facts shared by the number types.

Laws that span several operations (a read after a write, a return after a call, leaving
a scope after declaring in it, ...) are public proof functions whose names begin with
`law_`.
