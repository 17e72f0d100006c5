# moosicbox (verified core)

A Verus library holding the logic of several MoosicBox tools, with the
I/O around it in `app/`.

- `src/split.rs` — cutting a slice into balanced pieces of bounded size, with
  the laws of that partition.
- `src/clippier.rs` — the feature matrix of the `clippier` tool: reading a Cargo
  manifest, selecting
  feature names, chunking them, picking the install commands that apply to a
  build, and building the matrix entries.
- `src/models.rs` — the layout enums and their printed names.
- `src/layout.rs` — grid bookkeeping of containers (rows, columns, children of
  a row or column) and the scrollbar setting.
- `src/download.rs` — what the download page shows of releases.
- `src/image.rs` — image encodings and their names, and scaling and re-encoding
  image bytes, with what the JPEG and WebP files written begin and end with.
- `src/tunnel.rs` — where a tunnelling websocket sender routes each message,
  and the text of the packets it puts into the tunnel.
- `src/menu.rs` — the library menu's decisions: cache keys, what a lookup
  that found nothing or failed is answered, and albums made from table rows
  with their artwork paths.
- `src/upnp.rs` — listing a device tree in pre-order.
- `src/text.rs` — string helpers, decimal printing and parsing.

`app/` holds the command-line tool, the HTML rendering, the global scrollbar
setting, image resizing, the tunnelling sender and UPnP discovery.

The layout engine itself (sizing and positioning of elements) computes in
floating point over element types that are not part of this crate, so it is
not here; `src/layout.rs` holds only the integer grid bookkeeping.
