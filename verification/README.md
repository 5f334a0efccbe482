# bootty

Shares a terminal over WebRTC: with a peer that joins by a connection string, or
with browsers that join through a small web server.

The decisions of the program are a library whose behaviour is stated in contracts
and proved by Verus. The program around it reads and writes files, talks to the
network and the terminal, and asks the library what to do.

- `src/` is the library.
  - `sdp` writes, reads, encrypts and decrypts connection strings; `client` and
    `host` are the two sides of an exchange; `session` sets up a connection and
    says what its states mean.
  - `sessions` keeps the sessions of a web server and answers its visitors;
    `admin` answers its local admin interface; `serve` checks how it is launched
    and who may use it; `page` is what a browser gets.
  - `wire` gives the messages between the two sides their meaning; `pty` says what
    a terminal runs; `cli` parts the command from the other arguments;
    `ten_kb_site` is the relay for answers.
  - `config` holds the rules of the configuration and of stored passwords.
  - `base58`, `codec`, `json`, `random`, `dates`, `text` and `table` are what these build
    on.
- `app/` is the program.
- `tests/` runs the library.

A function that calls another crate does so through a small wrapper whose contract
is believed and not proved. Each wrapper says above it which function it calls and
what it claims of it.
