# discord_lite

The logic of a small native Discord client, verified with Verus: text over the REST API and
the gateway, voice over UDP, end-to-end encrypted voice frames, and what the window shows.

* `src/` is the library. Every function states what it does in `requires` and `ensures`,
  over the mathematical models that stand beside the types (`…View`, `Seq`, `Map`).
  * `gateway`, `net`, `rest`, `model`, `json`: the main gateway as a state machine, what
    becomes of the window's orders, and the requests.
  * `voice/`: packets (`rtp`), the session with the voice gateway (`session`, `messages`),
    address discovery, the keys of the senders (`keys`), the buffer that puts packets in
    order (`jitter`), and the two sides of a call (`sender`, `receiver`).
  * `dave/`: encrypted frames, AES-GCM with short tags, the key schedule, LEB128, the session
    of the group handshake (`mls`), and the lengths in its messages (`wire`).
  * `audio/`: the settings in force, the formats of devices, and samples on their way.
  * `state`, `config`, `ui/`, `auth`, `applog`, `token_import`: the state behind the window,
    the preferences, what the user can do, the token and the log.
* Outside crates are called through small functions marked `external_body`; the doc comment
  of each says what is believed of the call. For the group handshake that is what the crates
  do in a build without debug assertions.
* `tests/` runs the library, with the outside crates linked.
* `app/` is the program around the library: sockets, files, the keychain, the sound devices,
  Opus, the signal processing in floating point, and the FLTK window.
