# cache_cat

A Redis-like cache in verified Rust.

- `src/mocha` is an expiring key/value table: reads hide what has expired, and an index
  of expiry times lets a sweeper clear it.
- `src/pub_sub` knows which client is subscribed to which channels and patterns, and
  whom a message goes to.
- `src/cache` decides what commands do to the values that keys hold: lists, hashes and
  sorted sets, with versions that make a change only once.
- `src/network` is a connection as a machine that is told what happened and says what to
  do next.
- `src/protocol` holds the rules of single commands.

Each module states what its operations do over a plain model of its state and proves it
with Verus. The modules named `laws` state what holds of the operations together.

`app` does what a machine has to do around that: sockets, tasks, the `moka` cache, the
Lua interpreter and serialisation.
