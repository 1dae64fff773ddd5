# Fractalium

Fractalium draws self-similar fractals from a base shape (a list of segments) and a set
of replicas (similarity transforms): every replica is applied to the whole figure again,
down to a chosen depth.

## Layout

- `src/` — the core, verified with Verus:
  - `budget` — the work budget of the recursion and the deepest depth it allows (under
    the native limits or any others, such as the web build's), with its monotonicity laws;
  - `fractal_line_walk` — the walk, one step at a time (the caller holds the geometry),
    and the proof that the budget's estimates count exactly the steps it makes;
  - `fractal_state`, `session_rules` — the fractal definition, keeping its depth within
    the budget, loading a whole new fractal;
  - `undo` — the bounded undo / redo history;
  - `edit_state`, `placement_rules`, `edit_input`, `placement_input` — the interaction
    state machines of the Edit and Placement canvases and the handling of one frame of
    input on each (keys, drags, presses, what is recorded for undo);
  - `seed_preset`, `fractal_presets` — the preset catalogues and the boot-token lookup;
  - `share_payload`, `share_link` — the fields and limits of a share link, and the
    share-link port with its desktop implementation;
  - `export_phase`, `export_name`, `user_agent`, `app_screen`, `text` — the PNG export
    pipeline's frames and the hand-over of the image, the export file name, iOS
    detection, the start-up screen, text helpers.
- `app/` — the native program around the core: the floating-point geometry (segments,
  replicas, presets, grid snapping, the transforms along the walk), the platform ports and `main`.
- `tests/` — tests of the core.

The geometry is floating point and stays in `app/`; the core is generic over the segment,
point and replica types wherever it stores them, and decides on counts, indices and flags.
