# wallman

A wallpaper vault tool: it finds the image files of a directory tree and
extracts a 16-colour terminal palette from a wallpaper.

- `src/` is the verified library (Verus): path and extension rules, the
  indexing strategies and indexer, `#RRGGBB` notation, the palette layout, the
  down-sampled pixel grid, and the command-line argument rules.
- `app/` is the program around it: argument reading, directory walks, image
  loading, printing, and the palette extraction itself, which works in
  floating point.
- `tests/` exercises the library on concrete values.
