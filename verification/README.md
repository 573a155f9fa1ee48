# wlsnip

A Wayland screenshot tool: capture a region, an output, a window or every
workspace (wlr-screencopy, ext-image-copy-capture or the XDG portal), select
the region on a frozen frame, add padding and a shadow, and save, copy, pin,
annotate or upload the image as PNG, JPEG or WebP.

## Layout

- `src/` — the library, verified with Verus. Every public function states
  what it returns in its contract:
  - `buffers`, `utils::color`, `utils::geometry`, `utils::effects`,
    `encoders::png` — pixel buffers, RGBA conversion, slurp geometry,
    cropping, padding and shadow, PNG encoding;
  - `utils::freeze_overlay` — the drag selection and the overlay drawn over
    the frozen frame;
  - `utils::window_resolver`, `utils::workspace_capture` — which window or
    workspaces the compositor's IPC answers designate, the workspace tour
    and the stitching of its captures;
  - `backends` — the capture protocols' negotiation, output lookup, the
    compositing of several outputs, the portal's answer;
  - `app` — settings, backend order, capture parameters and where the image
    goes.
- `app/` — the program around it: command line, configuration file, Wayland
  and D-Bus connections, shared memory, processes, files and the clipboard.
- `tests/` — tests of the library on concrete values.
