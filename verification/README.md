# skeg-client

A client for the [skeg](https://github.com/skegdb/skeg) binary protocol, native v1 and v2, with
its logic verified by Verus.

- `src/` is the library. It does no I/O: a `SkegClient` is the state of one connection. Each
  method of it makes a request frame; `recv_frame` and `received` find the reply in the bytes that
  arrive; a `*_reply` function says what the reply means.
  - `wire`, `frame`, `request`, `body`: the byte formats, as mathematical functions.
  - `client`: the connection.
  - `reply`: from a reply frame to the outcome of a call.
  - `kind`, `error`: vector kinds, backends and errors.
  - `proto`, `lossy`: the calls into `skeg-proto`, `bytes` and the standard library, each with the
    contract that the rest of the library relies on.
  - `laws`: what holds of the library as a whole, proved from the functions' contracts.
- `app/` is the async client: a tokio socket around the library.
- `tests/` runs the library against the encoders and decoders of `skeg-proto`.

Each call is one round trip on the single connection. A connection speaks one protocol version;
every request carries it, and a reply in another version is rejected. `VectorKindV2` is a separate
enum from `VectorKind`: kind byte 3 means PQ in v1 and TQ1 in v2.

Vectors and scores pass through the library as the bit patterns of their f32 values.
