# neomacs

The core of an Emacs-like editor, verified with Verus: text buffers with a
point and a mark, the set of open buffers, editor commands with typed
parameters, event subscriptions, and the MessagePack-RPC message layer
through which clients talk to the editor.

## Layout

- `src/` is the verified library.
  - `buffer.rs`: buffers over a `ropey` rope, and the list of open buffers
    with its current buffer. `rope.rs` states what the rope operations do.
  - `command.rs`: command types and values, the check of an input against
    a command's signature, the command registry, and the records that
    clients and editor exchange about commands.
  - `events.rs`: event subscriptions and the `SUBSCRIBE` request.
  - `msgpack.rs`: MessagePack values as the library holds them (floats by
    their bit patterns).
  - `rpc/`: messages, reading a MessagePack value off the front of the
    received bytes and writing one (through `rmpv`), and the framing step
    (`codec.rs`); the text rmpv writes for a value, which error messages
    quote (`display.rs`), conversions between
    values and MessagePack (`convert.rs`, `record.rs`), the method table of
    the server (`routes.rs`), and the optional-value extension, whose bytes
    hold the MessagePack bytes of the value (`extensions.rs`).
  - `command_value.rs`: command values written as MessagePack values and
    read back from them, into the bytes of optional values.
  - `daemon.rs`: the datagram request layer and state mutations of the
    editor daemon.
  - `keyed.rs`, `text.rs`: sequences of keyed entries read as maps, and
    text helpers.
- `app/` is the program around it: sockets, tasks and channels, reading
  files, the command values as the process holds them (floats as
  `OrderedFloat`), and the widening of a 32-bit float, which it hands the
  library's reader.
- `tests/` runs the library on concrete values.
