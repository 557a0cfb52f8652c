# png_reader

A small PNG reader whose logic carries machine-checked contracts and proofs.

- `src/png.rs`: the file layout. `header_error` and `new` open a file (signature, then an
  `IHDR` chunk); `Png::read` walks the chunks after the header and decodes the known types
  (`gAMA`, `cHRM`, `pHYs`, `tIME`, `bKGD`, `tEXt`, `IDAT`, `IEND`). Each function's
  contract states its result over the byte sequence it reads.
- `src/bytes.rs`: big-endian integers, read with `byteorder`.
- `src/inflate.rs`: zlib decompression of image data, done by `flate2`.
- `src/render.rs`: the text renderings of the header and the chunks.
- `src/gui.rs`: the counter logic of the window.
- `src/laws.rs`: proofs that a file written as a list of chunks is read back as that list,
  that the walk stops at the first `IEND` chunk and ignores what follows it, that it looks
  at no more than `len / 12 + 1` chunks, that opening reads only the first 33 bytes, and
  that the counter counts its messages.
- `app/`: the program: reads `./s.png`, prints what the library decoded and rendered, and
  the `iced` window.
