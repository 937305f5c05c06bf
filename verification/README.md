# move-mv-llvm-compiler

A compiler from Move stackless bytecode to LLVM IR for the Solana SBF
target, with its decisions verified in Verus.

- `src/` is the verified library. `types`, `lowering`, `function` and
  `module` decide how each stackless instruction, call, constant, local and
  declaration is emitted; `semantics` proves that the emitted instructions
  and run-time checks compute what Move prescribes, aborts included, but
  for two checks the compiler does not emit (multiplication overflow and
  remainder by zero); `naming` builds the
  names and control-flow-graph files; `target` describes the SBF target;
  `attributes` numbers LLVM attributes for the C shim; `package` and
  `resolution` resolve the local dependencies of a Move package and prove
  the explicit-stack walker equal to recursive depth-first resolution;
  `cstr_cache` is the C-string cache's map.
- `app/` is the unverified shell: LLVM and the Move model through their C
  and Rust interfaces, the file system, and the drivers that run the
  library's plans.
- `tests/` exercise the library on concrete values.
