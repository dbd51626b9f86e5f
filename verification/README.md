# yunzii_b75_tui

Native control of the Yunzii B75 Pro Max keyboard's 160x96 TFT panel over
Linux `hidraw`: set its clock, switch its page, clear or upload a picture,
upload an animated GIF. A command line, and with no subcommand a terminal
interface.

## Layout

- `src/` is the library, written in Verus. Every function in it carries a
  contract, and Verus proves the code against it, except the few marked
  `#[verifier::external_body]`: those only call the `image` crate or std
  (resizing, decoding, `Debug` text of a path, lowercasing, a path's parent),
  and their contracts are trusted, stating what that code's source and
  documentation show.
  - `protocol` — the 64-byte report format (byte-sum checksum, data offsets)
    and every command sequence built from it, with the laws that a report's
    checksum verifies and that the bulk packets of an upload reassemble into
    exactly the frame that went in.
  - `device` — recognising the keyboard's config channel among the `hidraw`
    nodes, framing a write, and judging an acknowledgement.
  - `exec` — uploads as scripts of sends and pauses, and a state machine that
    hands them out one step at a time with cancellation between any two
    reports.
  - `plan` — placement geometry, frame selection, frame-rate analysis and the
    notes an upload plan carries.
  - `decode` — decoding a GIF or a picture held in memory, and turning the
    decoded frames into panel frames.
  - `preview`, `view`, `app`, `listing`, `worker` — the terminal interface's
    state machine and everything it shows, without a terminal.
  - `cli`, `text` — argument values and decimal text.
- `app/` is the program around it: argument parsing, the device file
  descriptor, reading image files from disk, the floating-point colour adjustments,
  threads and drawing. It performs what the library decides.
- `tests/` runs the library on concrete values.
