# fasttime

Host functions for WebAssembly guests that answer HTTP requests, verified with Verus.

A guest gets a client's request, may send requests of its own to backends, and builds the
response that goes back to the client. It works on requests, responses and bodies by handles,
and passes texts through its linear memory.

- `src/` is the verified library. `model` says what each host call does as a function from one
  state to the next, `handler` carries the calls out, `linker` lists the functions that a guest
  can import, `paging` and `order` list header fields one at a time, `memory` reads and writes
  the guest's memory, `http` and `status` hold what is believed of `hyper` and `fastly-shared`,
  `laws` states what holds of the calls taken together, and `events` what holds over a cycle.
- `app/` runs guests with `wasmtime` and connects them to backends.
- `tests/` runs the library on concrete values.
