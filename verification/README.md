# tvm_ffi

A verified core of the TVM foreign function interface: reference counted
objects, dynamically typed values, packed functions, tensors, and the macros that
go with them. `src/` is written in Verus. Every function states in its contract
what it returns and what it changes.

## Layout

- `src/object/`: reference counts, deleters, the object heap, `ObjectArc`, object
  references and casts, reflected fields.
- `src/any.rs`, `src/type_traits.rs`, `src/type_table.rs`: dynamically typed
  values, the types that can be held as such, and the table of registered types.
- `src/function.rs`, `src/function_internal/`, `src/scoped.rs`: packed functions,
  their arguments and replies, and callbacks that live as long as a scope.
- `src/collections/`, `src/dlpack.rs`, `src/dtype.rs`: tensors.
- `src/extra/`: modules.
- `src/match_any.rs`, `src/match_any_internal.rs`: dispatch on runtime types.
- `src/typed_expr.rs`: references refined by the type of what they express.
- `src/macros/`: what `match_any!` and the derive macros parse and expand to, over
  token streams of `proc_macro2` and syntax trees of `syn`.
- `tests/`: scenarios that run the library.
- `app/`: the unwind barrier, the scopes of a thread, a registry of global
  functions, and the entry points of the macros.

## How memory and native code appear

Objects live in an `ObjectHeap`, which holds their headers and layouts, and in
typed stores, which hold their payloads. Tensor data lives in a `HostMemory`. An
address is a number, and null is zero. Functions that count references or allocate
take the heap as an argument, and a handle is given up by an explicit call.

What native code does is an argument, too: a function that makes a native call
takes a closure for it, lends it the heap, and says in its contract what it makes
of whatever the closure does. Callbacks are lent the heap in the same way. A typed
callback owns its arguments, and gives them up before it returns the heap. A tuple
that is passed to a call is given up after the call.
