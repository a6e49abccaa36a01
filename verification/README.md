# hdc

A HarmonyOS Device Connector: the host tool `hdc` and the daemon `hdcd`, with their protocol
and their decisions verified by [Verus](https://github.com/verus-lang/verus).

## Layout

- `src/` is the verified library.
  - `protocol/`: the wire protocol. Commands and constants, messages and their fields, packets,
    labeled values, keys, and the cipher of encrypted sessions.
  - `host/`: the host. The command line and the client; the server with its devices, channels
    and forwardings; authentication; files, packages and images on their way; USB and discovery.
  - `daemon/`: what a device does for a host.
  - `text`, `path`, `address`, `tables`, `ciphers`: what these are made of.
- `tests/` runs the library on concrete values.
- `app/` is the program around the library: sockets, USB, files, processes and terminals. Under
  the name `hdcd` it is the daemon, under any other name the host tool.

## How the library is used

A function that decides takes what has happened and returns what is to be done. A session with
a daemon, for example, begins with `AuthSession::start`, which returns an action: to send a
message, to wait for one, to sign a challenge. The program carries the action out, tells the
session what came of it, and gets the next action, until the session stands or is refused.

Each function states in its contract what it returns for every input. Properties that several
functions keep together are public proof functions: that a message is taken out of its packet
as it was put in, that a key read by the server is the key that the client sent, that the two
ends of an encrypted session use matching keys, that an authentication ends.

The library calls other crates for AES-GCM, RSA, base64, zip archives and random numbers. What
it believes of them is written at those calls, in `protocol/encrypt.rs`, `protocol/keys.rs`,
`host/app_install.rs` and `random.rs`; `text.rs` holds what it believes of `String`.

## Environment

- `OHOS_HDC_SERVER_PORT`: the port of the server, where no option names one.
- `OHOS_HDC_ENCRYPT_CHANNEL=1`: sessions over TCP are encrypted.
- `OHOS_HDC_HEARTBEAT=1`: the server sends no heartbeats.
- `HDC_DAEMON_PORT`: the port of the daemon.
