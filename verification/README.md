# iceccd

A client for the icecream distributed-compilation protocol, written in Verus.

- `src/` is the verified library:
  - `wire`: big- and little-endian fields and their decoders;
  - `msg`: message types, message bodies, and the wire frame;
  - `requests`: the login, statistics, compile-server, compile-job and
    environment requests, the version handshake, and file pieces;
  - `parse`: decoding numbers, strings and whole messages from a receive
    buffer, with the laws that what is written reads back;
  - `discovery`: where the discovery probe goes and what an answer says;
  - `job`: the steps of a compile job on an assigned server;
  - `buffer`: the receive buffer (`bytes::BytesMut`) and text conversions.
- `app/` is the `riceccd` daemon, or the stand-alone `iceccd` client when
  started under that name: sockets, files, compression, threads and
  command-line arguments around the library.
- `tests/` runs the library on concrete messages.
