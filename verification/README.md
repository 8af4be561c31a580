# image_converter

A batch image converter whose planning, naming, colour, theme and session logic is
written in Verus and proved against its contracts.

- `src/` is the verified library:
  - `engine` scans results into inputs (each path once) and reserves one distinct
    destination per input, with four collision-naming styles;
  - `options`, `resize`, `color`, `matte` hold the conversion options, target
    dimensions, the exact `#RRGGBB` matte and the alpha compositing used for JPEG;
  - `imaging` decodes, resizes and encodes images in memory through the `image` crate;
  - `report`, `queue`, `workbench` follow a running batch row by row and drive the
    desktop session from planning to completion;
  - `theme`, `theme_catalog` hold the colour tokens, the catalog of built-in and saved
    themes with its guarded editing, and the stored settings with their migration;
  - `glass` holds the decisions of the native glass backdrop;
  - `cli` turns command-line options into a conversion request;
  - `text`, `paths` are the character and path helpers the rest is proved against.
- `app/` is the command-line program: argument parsing, file-system scanning, reading and
  writing files, parallel execution, and the settings file in JSON.
- `tests/` exercise the library on concrete values.
