# omarchy-imageview

A GTK4 image viewer for Omarchy. The crate is split in two:

- `src/` is the library, written in Verus and verified: file-format
  detection, folder ordering, the EXIF orientation algebra and the pixel
  transforms it stands for, SVG size sniffing, the viewer state and its
  saved form, key and toolbar bindings, status texts, theme colours and
  stylesheet, thumbnail cache keys, and the decoding of a file's bytes
  (raster formats, JPEG XL, animated GIF and WebP, EXIF orientation). Calls
  into `image`, `kamadak-exif`, `jxl-oxide`, `natord`, `toml` and `sha2` go
  through small trusted wrappers whose contracts are documented where they
  are declared.
- `app/` is the program around it: windows and widgets, reading folders
  and files, decoders that need the system (librsvg, libheif), processes
  (`exiftool`, `omarchy`, `lp`, editors) and the clipboard.

Navigation wraps: next from the last image shows the first, and previous
from the first shows the last.

`tests/` holds the tests, run against the compiled library.
