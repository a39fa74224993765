# hyperion_vm

The runtime core of a PHP engine, written in Verus: the data the engine works
on (values, arrays, objects, classes, compiled functions, fibres with their
stacks and frames) and the rules it applies to them, each with a contract
that Verus proves.

## Layout

- `src/value.rs`, `function.rs`, `classes.rs`, `fibre.rs`: the data model —
  values as handles into a per-fibre heap (`Arena`), arrays with ordered
  keys, classes and method tables, call frames and the operand stack.
- `src/names.rs`, `resolve.rs`, `instance.rs`, `access.rs`, `vm.rs`,
  `cache.rs`: name normalization and hashing, class-name resolution,
  `instanceof`, visibility checks, method and static-property lookup with
  their caches.
- `src/args.rs`, `pad.rs`: binding call arguments (named, variadic,
  defaults), padding frames, copying arrays by value.
- `src/throw.rs`, `sync.rs`, `autoload.rs`, `iteration.rs`, `enums.rs`,
  `objects.rs`, `compare.rs`, `inline.rs`, `jit.rs`: exceptions and
  unwinding, synchronous calls from native code, class autoloading,
  `foreach` sources and destructors, enum built-ins, property snapshots,
  loose equality and ordering as far as they need no floating-point number,
  inlining, and the callouts compiled code makes.
- `src/step.rs`: the interpreter for its instruction set (stack, locals,
  constants, jumps, loops, integer arithmetic, array union, comparisons,
  logic, returns): the byte encoding, single steps, the run loop with its
  loop gas and step budget, synchronous drives that resume preempted runs,
  and synchronous method calls that run until their frame returns;
  floating-point arithmetic, comparisons of numbers, arrays or objects, and
  due destructors are handed back to the caller, which resumes the run.
- Lookups that load classes (`find_method_with_autoload`,
  `instance_of_with_autoload`, `throw_exception`) and the `foreach` loops
  (`resolve_iterable`, `iterator_step`) take the loading or the method call
  as a function argument and are proved for every such function.
- `src/http.rs`, `server.rs`, `sapi.rs`: HTTP responses, request planning
  and the per-result scheduling decisions of the built-in server's workers,
  and the CGI bridge to an external PHP binary.
- `src/external.rs`: the outside map type the engine's tables use.
- `src/laws.rs`: properties that relate several operations, among them
  that the method caches, while the engine is unchanged, give what a fresh
  lookup gives.
- `app/`: process handling, sockets, files and the environment; PHP's
  loose comparisons; `compare::float_arith`, which finishes the
  floating-point arithmetic the interpreter hands back; and the loop that
  runs a fibre and synchronous calls to their end (`run_fibre`,
  `call_method`), doing that work and running due destructors.
- `tests/`: tests on concrete values.
