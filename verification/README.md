# tinyconnect

The decision logic of TinyConnect, a compact Windows terminal controller for a
local Spotify Connect device, written in Verus with its contracts proved.

- `src/naming.rs`: the advertised device name and the computer name it is
  built from.
- `src/keys.rs`: key events and what each key asks for.
- `src/launch.rs`: recognising the copy started inside the dedicated window.
- `src/player.rs`: the player's items and events as plain values; the artist
  line.
- `src/text.rs`: clock text (`MM:SS`) and the animated signal bars.
- `src/ui.rs`: the screen state and how events, keys, ticks and the outcomes
  of outside work change it.
- `src/audio.rs`: the output endpoint's identity and shown name.
- `src/connect.rs`: the Connect device's own volume settings.

`app/` holds the program around the library: terminal and input thread
(crossterm, ratatui), the librespot session and discovery, Windows Core Audio
and the floating-point volume arithmetic.
