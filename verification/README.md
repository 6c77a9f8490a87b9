# vibe

V.I.B.E is a macOS menu-bar app: clap twice and the active routine runs —
its apps launch, its URLs and documents open, and each window snaps into
the screen region chosen for it.

This crate is written in Verus. `src/` is the verified library: every
decision the app makes has a contract that Verus proves.

- `engine` — clap events in fixed-point units (thousandths of a decibel,
  basis points) and the double-clap pairing rules.
- `pipeline` — the detection loop's state: the post-trigger quiet gate,
  the exactly-two rule, pausing and sensitivity changes; and the engine's
  controls.
- `routine` — routines, the routine document, its store (insert/replace,
  delete, activate, settings) and the bounded execution log.
- `action` — actions and their labels and arguments; how a routine run is
  planned (launch now, place later, skip on a missing display), the
  per-action outcomes, the "already assembled" verdict and the restack
  order.
- `layout` — regions, display resolution, process/window probes and the
  placement decisions (document window choice, settle tracking).
- `tray` — menu texts in both languages, the tray menu, trigger cooldown.
- `poc` — the command-line prototypes: four-kind actions, the offline
  matcher (proved equal to the streaming one) and argument parsing.
- `text` — string helpers stated over character sequences.

`app/` is the rest of the program, unverified: the Tauri shell, audio
capture and the floating-point clap detector, the Accessibility and
CoreGraphics calls, subprocesses, and the JSON file. It hands the library
plain values and acts on what the library decides.

`tests/` runs the library on concrete inputs.
