# rustycolour-core

Colour palette toolkit. The library (`src/`) is verified with Verus; the
desktop application and the floating-point colour science live in `app/`.

## Library (`src/`, verified)

- `text` — characters of strings, Unicode blank trimming, line and word
  splitting, decimal numerals, all specified as functions on `Seq<char>`.
- `color` — `Rgb8` and the `#RRGGBB` notation (writer, reader, round-trip law).
- `import` — the GIMP palette (GPL) reader and the Adobe Swatch Exchange
  (ASE) reader with its `ByteReader`; both specified completely, errors
  included.
- `export` — export formats and labels, the HEX/RGB/CSS/GPL text writers,
  the ASE byte writer, and `export_palette_bytes`, the bytes written to a file
  for every format that works on 8-bit channels.
- `roundtrip` — laws: reading back an exported GPL file or ASE file gives the
  exported colours; the HEX/RGB list of two palettes joined is the two lists
  joined by a line feed; HEX, RGB and CSS exports have one line per colour.
- `method`, `generators`, `registry` — the metadata and size rules of the
  sixteen palette methods (classical harmonies, perceptual ramps, OKLCH ramp,
  Lab ΔE spacing, RYB complementary, annealed ΔE spacing, CVD-safe
  categorical), and the registry with lookup by identifier and distinct ids.

ASE channels are carried as IEEE 754 bit patterns; clamping, scaling and
CMYK mixing are floating-point work and happen in the application.

## Application (`app/`)

`f32` colours (`Color`, `Palette`), HSL/Lab/OKLCH conversions, palette
generation, accessibility metrics, the HSL/OKLCH/JSON exports, and the egui
interface (`--cli` prints a golden-angle palette instead).
