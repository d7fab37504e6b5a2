# mcp-proxy

A proxy that connects clients of the Model Context Protocol that speak over standard input and
output to servers that speak over HTTP, either with server-sent events or with streamable HTTP.

The logic is a library that is verified with Verus. The program around it is ordinary Rust.

## Layout

- `src/proxy.rs` is the event loop over a plain event stream, as a state machine: an event of the
  server, of the client or of a timer changes the state of the proxy and says what is to be done.
  `src/proxy_laws.rs` holds what is proved of it: the answer of the server to a call is passed on
  once, under the identifier that the client gave, a reconnection is not seen by the client, calls that come meanwhile are
  resumed or refused, and the proxy gives up in time.
- `src/relay.rs` and `src/relay_laws.rs` are the same for a session over a transport.
- `src/message_transform.rs` makes the messages of a client fit the codec of the `rmcp` crate.
- `src/sse.rs` reads events from the bytes of an event stream, and `src/tasks.rs` turns what is
  read into events of the proxy.
- `src/connection.rs` decides when to connect, when to try again and when to give up.
- `src/models.rs`, `src/wire.rs`, `src/replies.rs`, `src/ids.rs` and `src/endpoint.rs` hold the
  messages, their JSON form, the answers of the proxy itself, identifiers and endpoints.
- `src/json.rs` and `src/text.rs` state what is used of `serde_json` and of the strings of the
  standard library.
- `app/` is the program: arguments, input and output, and the transports.

## Usage

```bash
mcp-proxy http://localhost:4000/tidewave/mcp
```

The URL can also be given by the environment variable `SSE_URL`. Other flags:

- `--debug` logs debug messages on standard error.
- `--max-disconnected-time` is the time for trying to reconnect, in seconds. Without it there is no
  limit.
- `--initial-retry-interval` is the time between two attempts of the first connection, in seconds.
- `--headers` are headers to send to the server, as a JSON object.
- `--override-protocol-version` is the protocol version to report to the client.
- `--rewrite-protocol-version` reports the protocol version that the client asked for.
