# widevin

A client for the Devin/Cascade programmatic-access protocol: OAuth (PKCE)
login, token storage, model discovery and streaming chat over
Connect-RPC/protobuf.

## Layout

- `src/` is the verified library: the protocol's decisions and
  computations, with contracts proved by Verus:
  - `connect.rs`: Connect framing (encode, incremental decode, trailers),
    with the chunk-boundary law and the round trip of encoded frames
    through any chunking.
  - `chat.rs`: the chat stream's decisions — tool-call argument
    accumulation, parse throttling, event order, the done reason.
  - `request.rs`, `prompts.rs`: the chat request and its message prompts.
  - `models.rs`: model normalization (filtering, last-wins dedup, ordering,
    reasoning detection).
  - `auth.rs`: the PKCE pair, the authorization URL, the loopback callback
    check and the token-exchange verdicts.
  - `flow.rs`: URLs, requests and error values of the HTTP exchanges.
  - `json.rs`: a plain JSON type, member lookup, and the throttled parse.
  - `token.rs`, `uuid.rs`, `text.rs`, `order.rs`, `index_map.rs`,
    `proto.rs`, `types.rs`, `error.rs`, `constants.rs`: the supporting
    models and helpers.
- `app/` is the unverified edge: HTTP over reqwest, the tokio loopback
  server and file store, protobuf encoding and decoding with prost (with
  its gzip fallback, which goes through prost's `Message` trait), the async
  event stream, and the floating-point sampling options.
- `tests/` runs the library on concrete values.

Calls into outside crates (flate2, sha2, base64, url, uuid, serde_json,
indexmap) stand behind small trusted wrappers whose contracts are stated
next to them.
