# argus-polymarket

The wire protocol of an Argus server, a Polymarket market data and order routing server, as a
library verified with Verus, and a client on top of it.

- `src/` is the library: cutting the byte stream into packets, telling the two protocols
  apart, encoding requests, decoding and decompressing replies, reading order books, matching
  replies to requests, and the messages that say what went wrong. Every function states what
  it returns, and the laws that tie functions together are proof functions named `law_...`.
- `app/` is the client: the TCP connection, its two threads, the locks and events, and
  everything that needs floating-point numbers or `serde` derives.
- `tests/` runs the library on concrete values.

What the library has from other crates stands behind functions marked `external_body`: base64
decoding, zlib decompression, random UUIDs, JSON reading and quoting, and a few string
functions of the standard library. Each says what it relies on.
