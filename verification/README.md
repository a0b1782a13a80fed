# asbar

The logic of AsBar, a Dynamic Island for Windows (Tauri 2): a verified Verus
library in `src/` and the desktop shell around it in `app/`.

`src/` decides; `app/` reads the world (media bus, UI Automation, audio
capture, files, network, windows and tray) and performs what the library
decides.

| module | contents |
|---|---|
| `text` | character-level string vocabulary (lower-casing, search, suffix trimming) |
| `browser` | browser labels, YouTube video ids from URLs, thumbnail URLs |
| `media` | friendly player names, track identity, SMTC time base, album-art bytes |
| `art` | art cache keys and files, data-URIs, acceptance of cached/downloaded images, lookup order |
| `ai` | allowed models, relay endpoint, relay error messages |
| `poller` | the media poller's art state machine |
| `visualizer` | pacing of equalizer frames |
| `geometry` | island and panel placement |
| `shell` | visible-window set, tray, close requests, settings changes, accent color |
| `config`, `autostart` | file locations, docking anchor, startup shortcut |

Floating-point work (spectrum analysis, scale factors, playback position) and
everything that talks to the operating system stays in `app/`.
