# Pic2WebP

Converts pictures (JPG, PNG, WebP, AVIF, GIF, BMP, TIFF) to WebP, in a window or from the command
line. Everything stays on the machine.

- `src/` is the library. Its behaviour is stated in contracts and proved with Verus: which files a
  batch works on (`collect`), where results go (`naming`, `paths`), how pictures are scaled
  (`resize`) and encoded (`encode`, `render`), what becomes of each file (`job`), how the tally is
  kept (`request`), when a batch may run and the window may close (`state`), how outside programs are
  found and waited for (`tools`, `command`), how files are written whole or not at all (`atomic`),
  thumbnails (`thumbnail`), the menu (`menu`) and the command line (`cli`). Proof functions named
  `law_...` state what holds across functions.
- `app/` is the program around it: files, processes, threads and the window.
- `tests/` runs the library, with the real codecs.

Pixels are decoded, scaled and encoded by the `image` and `webp` crates. What the library takes from
them on trust stands in the doc comments of the functions that call them.
