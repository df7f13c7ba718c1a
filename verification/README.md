# skia_canvas

The page-output side of a Skia-backed canvas: how recorded layers are kept,
how a page is exported, what sequence files are called, and how a pixel
density is written into encoded images.

- `src/` is verified with Verus:
  - `dpi`: JFIF density fields of a JPEG and the `pHYs` chunk of a PNG, with
    the chunk's CRC-32 taken from the `crc` crate;
  - `export`: the export plan for a format name, export errors and their
    messages, pixel buffer sizes, the first empty page of a PDF;
  - `recorder`: a page's layers, the drawing flag and the cached image;
  - `sequence`: the page sequence, zero-padded page numbers and file-name
    patterns with `{}` placeholders.
- `app/` drives Skia (recording, rendering, encoding, PDF and SVG output),
  rayon (writing a sequence in parallel) and neon (reading pages from
  JavaScript) around the library.
- `tests/` runs the library on concrete values.
