# cellshot

Control, inspect and capture terminal applications: start an application in a
pseudo-terminal, type into it, wait for text, take its screen, and replay a
recorded session as a video.

The library under `src/` holds the decisions and is verified with Verus; the
program under `app/` holds the command line, files, processes and sockets.

| Module | What it holds |
| --- | --- |
| `text` | Numbers, quoting and searching of text |
| `frame` | A visible screen as plain values, and its text |
| `width` | How many columns a character takes |
| `scan` | In which column a stream of output leaves the cursor, byte by byte |
| `terminal` | The terminal emulator of the `vt100` crate, and the screen behind it |
| `host` | What a host terminal answers to the questions of an application |
| `input` | Named keys and text as the bytes that a terminal sends |
| `capture` | What a capture may ask for, the screen of a stream, the files it leaves |
| `recording` | The entries of a recording, written and read back |
| `replay` | The screens of a recording, and the frames of a video at real or capped timing |
| `session` | Names, sockets, requests and answers of a session |
| `launch` | The start of a session, step by step |
| `server` | The server of a session, step by step |

`launch` and `server` are state machines: each step takes what came of the last
action and gives the next one, and the program performs it.

What is proved beside the contracts of the functions stands in the functions
whose names begin with `law_`.

`vt100` and two functions of the standard library are trusted: their contracts
stand with the functions marked `external_body` in `terminal` and `text`. The
emulator panics on some output at very small or very wide sizes;
`terminal::takes` says on which.
