# iris

Verified pieces of IRIS, an SGI Indy emulator, written in Verus.

- `src/nfsudp/` — the in-core NFS server's backend and wire layer: the
  fileid ↔ path map with its containment guarantees (`backing`, `paths`,
  `table`), XDR encoding/decoding (`xdr`) and Sun RPC call parsing and reply
  headers (`rpc`).
- `src/config.rs`, `src/config_ui.rs` — the machine configuration and every
  edit the configuration tabs make to it.
- `src/input.rs` — keyboard mapping, modifier events and PS/2 mouse packets.
- `src/framebuffer.rs` — packing the composited framebuffer into RGBA frames.
- `src/safe_stop.rs` — whether force-stopping the emulator is safe, and why not.
- `src/launch.rs` — start-up decisions: feature report, window, debug-log spec.
- `app/` — the unverified host side: file I/O for the NFS export, egui/winit
  glue, file dialogs, the TOML config file, and `main`.

Host I/O never happens in `src/`: each operation that depends on the host
takes the host's answer as an argument, and its contract states the result
for every answer.
