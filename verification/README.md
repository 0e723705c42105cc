# tokio-s7

A client library for Siemens S7 PLCs over ISO-on-TCP (RFC 1006), written in
Verus: the protocol logic is verified against its contracts.

- `src/` is the verified library: the wire types (`tpkt`, `cotp`, `header`,
  `paramter`, `item`, `datum`, `packet`) with their encodings, decodings and
  round-trip laws; address parsing; the frame splitter; the decisions of the
  client (`client`: answers, PDU limits, value and string encodings; `szl`:
  order code, CPU identification, communication limits and operating mode;
  `session`: when to answer, serve, retry or stop; `batch`: how a read or
  write of many items is cut into requests that each fit the negotiated PDU
  length, and how the answers are joined back in order). `buffer` holds the
  contracts of the `bytes` buffer calls the encoders use.
- `app/` is the asynchronous client on top of it: the tokio task that owns the
  TCP connection, the typed read/write calls (a multi-item read or write is
  sent as several requests where one would not fit the PDU), the `tokio_util` codec impls and
  the error type with its `Display`.
- `tests/` runs the library on concrete frames and values.
