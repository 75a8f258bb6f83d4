# pen

Verified pieces of the compiler of the Pen programming language, written in
Verus.

- `src/hir`: top-level definitions of the high-level IR.
- `src/mir`: types, arguments and function definitions of the mid-level IR.
  A definition's function type is computed once from its arguments and result
  type, and a type invariant keeps it so.
- `src/mir_fmm`: how a function definition becomes the entry functions of a
  closure, as plain values: the arguments and result type of the entry
  functions, the scope in which the body is compiled, where the free variables
  and a thunk's value lie in the closure, the code of the initial, normal and
  locked entries of a thunk (with the memory ordering of each atomic access,
  and which accesses each step makes with and without synchronization), and
  the drop functions (their argument and what they release).
- `src/mir_fmm/thunk.rs`: the protocol that the entries of a thunk follow,
  as a model of the thunk's state and the callers' atomic steps.  That a
  synchronized thunk evaluates its body at most once, that only the caller
  that evaluated stores the value, and that each reference is released once
  (for a synchronized thunk, and for any thunk whose callers take turns), are
  proved on this model; `entry_function.rs` proves that the code of each
  entry runs the model's steps.
- `src/infra`: the path of a package's configuration file.
- `app/`: standard input and output for compiled programs, and the file
  system access around the package configuration reader.

## What is not here

- The instructions of the low-level IR are not generated: the compiler's
  type, expression, closure-layout and reference-counting modules that build
  them are not part of this crate.  `src/` states the plan that they carry out.
  Memory orderings are stated as values in that plan; their effect on other
  threads is not modelled, the protocol model takes each step as atomic.
- Bodies are carried, not compiled.
- The options with which drop functions are defined come from the compiler's
  reference-counting module, which is not here, so they are not stated.
- Parsing a package's configuration into its dependencies is not done: the
  configuration's format is defined outside this crate.  `app/` reads the
  file's text.
- Exporting the standard-stream functions through the runtime's foreign
  function interface is not done.
