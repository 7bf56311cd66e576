# reflection

An in-memory form of the serde data model (`Data`) with its equality, order and debug text,
the indices and paths that reach into it,
and the serializer state machine that builds it, together with the tools built on top of it:
the key-driven state of a terminal debugger, a small pong game and its layout, the buffer
layout of a mesh renderer, and a tree of tracing spans and events.

- `src/` is the library, verified with Verus: each public function states what it returns
  or changes, and the `law_*` proof functions state what holds across calls.
- `tests/` runs the library on concrete values.
- `app/` connects it to the outside world: serde, the tracing subscriber, the logger,
  cross-thread channels and the terminal.
