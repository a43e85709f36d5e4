# bar_lyrics

Synchronised single-line lyrics for desktop bars (Noctalia, DankMaterialShell,
Waybar), fed by SPlayer Next. The library in `src/` is written in Verus: the
lyric timing, cropping and segmentation, the engine that turns playback into
frames, the cover cache's decisions, the settings and their validation, the
command line, the JSON-RPC protocol of the IPC mode and its HTTP gate, the
SPlayer and MPRIS decisions, and the Waybar payload all carry contracts that
Verus proves.

`app/` is the program around it: it reads the player over HTTP, WebSocket and
D-Bus, downloads covers, runs the HTTP server of the IPC mode, computes the
floating-point parts of the display (playback clock, animation opacities,
Pango markup), and writes the frames.

Layout of `src/`:

```text
text.rs      characters, trimming, decimal and hexadecimal text, integer parsing
model.rs     tracks, lyric lines and words
lyrics.rs    word timing, cropping, segments, subtitles, truncation
cover.rs     cover URLs, cache paths and the cover cache
engine.rs    playback, line changes and frames
options.rs   settings, defaults and validation
cli.rs       the legacy command line
json.rs      JSON values
ipc.rs       JSON-RPC requests and replies, the HTTP gate, tokens, discovery
splayer.rs   SPlayer's API replies, WebSocket URL, update stream, control
source.rs    MPRIS players, routing and ownership
waybar.rs    Pango escaping, the module payload, the Waybar process search
runtime.rs   what a new configuration redoes, refresh schedule
```
