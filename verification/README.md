# slsk_core

The core of a Soulseek client, written in Verus: every function of the
library carries a contract that Verus proves.

- `src/` is the verified library:
  - `search/`: the search-term syntax (`-word`, `*word`, `"phrase"`), the
    bookkeeping of our searches (tokens, history, wishlist), and the word
    index that answers searches from other users;
  - `protocol/`: integers and strings on the wire, and the server and peer
    messages the client builds and reads;
  - `network/`: frames, the session with the server as a state machine,
    the handling of peer messages, socket settings, connection states;
  - `transfer/`: transfer states, downloads, the upload queue, retry delays,
    incomplete-file names;
  - `io/`: the rules of the transfer pipeline (adaptive buffers, chunk
    sizes, the bandwidth limit);
  - `profiles.rs`, `ui.rs`: saved logins and what the front end keeps apart
    from its widgets;
  - `text.rs`, `digest.rs`, `clock.rs`: string helpers, MD5 in hexadecimal,
    delays and clock readings.
- `tests/` runs the library.
- `app/` is a command-line front end and the daemon that performs the I/O
  the library's state machines ask for.

## Collections

The word index, the incomplete-file tracker and the upload queue's buddy
list hold their entries in `Vec`s, with an invariant that no entry occurs
twice (the tracker keys each path by its components, as `std::path::Path`
compares paths), where a hash map or set keyed by strings would be the usual choice:
Verus specifies `HashMap` and `HashSet` in terms of their keys' hashing, and
with `String` keys nothing about their contents can be proved, so every
contract over them would be empty. The server statistics are plain `u64`
counters updated through `&mut`; the daemon shares them behind a `Mutex`,
since vstd's specifications of std's atomics say nothing of the values
they hold, so no contract could speak of the counters.
