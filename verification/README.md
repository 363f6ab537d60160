# ibroadcast_tui

The logic of a terminal client for iBroadcast, written in Rust and verified with Verus.

- `src/` is the library: what is sent to the servers and what their replies mean, the decoding of
  the music library, searching and sorting, the playback queue, downloads, playlists and transport
  streams, the recovery of playback when audio devices come and go, and the controller that reacts
  to keys, finished tasks and the passing of time. Every function states what it does, and the
  proof functions whose names begin with `law_` state what holds of several functions together.
- `app/` is the program around it: the terminal, the network, the disk, the keyring and the audio
  device.
- `tests/` runs the library.

The library decides and never waits. What is to be done outside is put into lists: the effects of
the engine (`engine.rs`), which concern playback and the audio device, and the requests of the
controller (`app.rs`). The program does what the lists say and tells the library what came of it.

## Modules

| Module | Subject |
| --- | --- |
| `text` | trimming, splitting, searching and numbers in texts |
| `json`, `library`, `sorting` | values from the server, the music library, the order of tracks |
| `error` | errors and their messages |
| `config`, `storage`, `logging` | settings, where tokens are kept, the bound of the log file |
| `oauth`, `api`, `session` | logging in, requests and replies, sessions |
| `hls`, `mpegts`, `progressive` | playlists, transport streams, the buffer of a stream |
| `queue`, `downloads` | the playback queue, downloads and their paths |
| `player`, `audio`, `recovery`, `engine` | outputs, the audio worker, recovery, playback |
| `ui`, `app` | what is shown, the controller |

## What is trusted

Calls into other crates and a few functions of the standard library are made in small functions
marked `external_body`, or specified by `assume_specification`; their contracts are believed. The
doc comment of each names the outside function and says what is claimed of it.
