# airsonos2

The verified core of an AirPlay 2 bridge for legacy Sonos rooms. Every Sonos
room shows up as a virtual AirPlay speaker; what is played to it is encoded as
a live stream, served over HTTP, and the player is told to play that stream.

- `src/` is the library. It decides and computes; it does no I/O. Every
  function has a contract. Verus proves it, but for the few functions that call
  other crates.
- `app/` is the program around it: the command line, sockets, child processes,
  the AirPlay receiver, configuration files and floating-point audio.
- `tests/` runs the library on concrete values.

## Where to look

| Module | What it holds |
| --- | --- |
| `bridge`, `bridge_state`, `bridge_laws` | Sessions, cohorts that start together, retries: the steps, the model they are proved against, and what holds of the model |
| `downstream` | Preparing and starting a player, step by step |
| `stream`, `chunk`, `registry`, `http`, `encoder` | Live streams and who gets what of them |
| `sync` | Startup lags, compensation, delay plans |
| `airplay` | Receiver sessions and pairing stores |
| `soap`, `client`, `xml`, `topology`, `discovery` | Talking to players and finding them |
| `config`, `home_assistant`, `diagnostics`, `cli` | Configuration, the doctor and the command line |
| `ids`, `types`, `net`, `paths`, `text`, `text_map`, `session_map`, `web` | Building blocks |

The bridge leaves what it wants done in an outbox of `BridgeAction`s. The
program performs them in order and hands back what happened. Times are
nanoseconds on one clock; samples and volumes pass through as the bit patterns
of 32-bit floats.

Calls into other crates stand behind small functions whose doc comments say
what is taken for granted of the call.
