# video_transcode

Hardware video output and decoding glue whose decisions are verified with Verus.

`src/` is the library. It holds no I/O: it takes plain descriptions of cards, frames and clocks, and
says what is to be done.

- Pixel formats and frames: `pixel_format`, `paint`, `copy`, `copy_laws`, `conversion`,
  `dumb_buffer`, `gradient`, `fourcc`.
- Choosing a display: `pick`, `mode`, `topology`, `property`, `setup`.
- Requests to the card: `modeset`, `atomic`.
- Imported frames: `import`, `submit`, `scanout`, `queue`, `ledger`, `schedule`, `prime_loop`,
  `prime_display`.
- Raw frames: `raw`, `raw_loop`, `raw_history`, `sink`.
- Decoders: `decoder`, `decode`, `h265`, `dmabuf`, `export`, `prime_export`.
- Shared: `error`, `text`, `lease`, `managed`.

`app/` is the ordinary Rust around it: cards, threads, codecs and native functions. `tests/` runs
the library on concrete values.

The loops of the display threads are state machines: an action is carried out in `app/`, its
outcome is handed to `step`, and the next action comes back. The contracts of the outside crates
that the library calls are stated on the functions that call them, in `text`, `fourcc`, `dmabuf`
and `atomic`.
