# tigertail

Turns a reMarkable 2 into a USB pen tablet and precision touchpad
(`tigertaild`, on the device), with a host-side client (`chiral`) that
streams the pen over SSH into a Wayland virtual pointer.

- `src/` — the verified library (Verus):
  - `hid.rs`, `hid/touchpad.rs`: HID report descriptors, input reports and
    the touchpad's feature reports, with laws relating them (descriptor
    lengths, decoding of packed reports, values read back after writes,
    packed values inside the declared logical ranges).
  - `gadget.rs`: FunctionFS descriptor/string blobs, `ep0` event parsing,
    the answer to each HID control request and the layout of interfaces
    and workers.
  - `pen.rs`, `touch.rs`: frame assembly from raw evdev events, slot
    tracking, per-touch contact ids, lift reports, palm rejection and report
    change detection.
  - `config.rs`: precedence of command line, file and defaults; validation.
  - `evdev.rs`: labels for raw event dumps.
  - `host/`: the client's event-stream decoder and pointer decisions.
- `tests/`: tests of the library.
- `app/`: the two programs around the library (I/O, threads, signals,
  configfs, Wayland, GTK, floating-point mapping). The binary runs `chiral`
  when invoked under that name and `tigertaild` otherwise.
