# tg_unblock

A local SOCKS5 proxy for Telegram. Connections to Telegram's addresses go through a WebSocket tunnel
to Telegram's own web endpoints; all other connections are passed on as they are.

The library under `src/` holds every decision of the proxy, down to what is noted of a connection,
and is verified with Verus. It does no input or output. The program under `app/` owns the sockets,
TLS, the log and the command line, and does what the library's state machines tell it to do. The
switch of the system's DNS servers is decided in the library, too, but this build has no means to
change them: with `--dns` it says so and leaves them as they are.

| Module | What it holds |
| --- | --- |
| `text`, `units`, `utf8` | numerals, amounts of data, decoding of UTF-8 |
| `ipv4`, `ipv6` | addresses and their texts |
| `telegram` | Telegram's address blocks, data centres and endpoints |
| `obfuscated2` | the first packet of Telegram's obfuscated transport |
| `socks5` | the destination in a SOCKS5 request |
| `session`, `session_laws` | one client connection, and what holds of all of them |
| `tunnel` | how the tunnel to a data centre is set up |
| `relay`, `relay_laws` | the traffic of one tunnel, and what holds of it |
| `stats`, `stats_laws` | the counters of the proxy, and what they mean |
| `listener` | the loop that accepts connections |
| `dns` | the switch of the system's DNS servers |

Two functions are believed rather than proved: `apply_aes256_ctr` in `obfuscated2`, which calls the
AES implementation of the crates `aes` and `ctr`, and `decode` in `utf8`, which calls the standard
library. Their contracts say what is claimed of them.
