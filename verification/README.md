# crawl

A system-services stack for Linux desktops: a daemon that manages audio,
network, wallpaper, system monitoring and processes, answering JSON-RPC 2.0
over a Unix socket, and the `crawl` command-line client.

## Layout

- `src/` — the library, verified with Verus: the IPC data types and events,
  the JSON-RPC server's decisions (how a request line is taken, which audio
  operation a request asks for, the daemon's own methods and the answer to
  an unknown one), the client's requests
  and tables, configuration checks and config-file editing, clipboard
  history, wallpaper state and image arrangement (on `image`), the image
  cache (on `lru`), NetworkManager status diffing and device selection,
  memory/disk/process readings (on `sysinfo`) and process orders, block devices and media
  players, frame encoding and the Wayland backend's bookkeeping.
- `tests/` — tests of the library.
- `app/` — the programs around it: the `crawl` client (clap), the daemon
  (tokio, figment) with its method dispatch to the services, D-Bus access
  (zbus), PulseAudio, the Wayland clipboard,
  the Wayland wallpaper thread, the REST interface (axum), and the
  floating-point parts (CPU loads, transition blending).
