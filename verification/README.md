# cache_action

A daemon that pushes store paths of a Nix store to a binary cache, and the
commands with which it is run, given work, and drained.

- `src/` is the library: the wire protocol between the daemon and its clients,
  the decisions of the daemon's event loop, the steps of handling a store path,
  the multipart upload of a NAR, the requests to the caches and what is made of
  their replies, and everything that is said to the user. It does no I/O. What
  has to be read, sent or waited for is asked for by the values that its
  functions return, and what came of it is handed back to them. All of it is
  verified with Verus.
- `app/` is the program: command line, sockets, HTTP, the Nix store.
- `tests/` run the library.

Where the library calls another crate, a trusted function says what is taken for
granted about the call: `memchr` (`protocol`), `sha2` (`hash`), `url`
(`url_text`), `http` (`http_reply`) and `smallvec` (`small_list`).

The functions named `law_…` state what holds of several functions together, for
example that a daemon makes out the store paths that a client sent, that it
handles each of them once, and that the parts of an upload make up the NAR.
