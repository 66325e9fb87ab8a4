# rust-terminal

A tabbed terminal emulator for Windows PE: pure GDI rendering, ConPTY-backed shells, a self-drawn
dark chrome, and settings from the registry.

- `src/` is the verified library: the screen buffer, the reaction to VT sequences (split by `vte`),
  keyboard encoding, window layout and hit-testing, the drawing steps of a frame, the settings, the
  choice of shells, and the window's reaction to every event. Each public function states exactly
  what it returns or changes; the modules named `*_laws` prove what holds across operations.
- `app/` is the Windows program around it: window procedure, pseudoconsole, registry, clipboard, GDI.
- `tests/` exercises the library on concrete values.

What the library takes on trust is marked in the source: `vte`'s parser (`src/vt.rs`), and four
standard library functions (`src/text.rs`, `src/utf16.rs`).
