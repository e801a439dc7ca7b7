# insanity

Peer-to-peer voice chat. The library under `src/` is verified with Verus; `app/` is the program
around it (command line, devices, network, files), and `tests/` runs the library.

- `audio`: chunks and formats, channel conversion, the transforms a chunk goes through, reordering
  of chunks that arrive late or twice, concealment of what is missing, the mixer, and the ring that
  feeds a device. Samples are the bit patterns of single precision numbers: order and clamping are
  read off the bits, arithmetic is a parameter.
- `connection_manager`, `managed_peer`, `clerver`: which peers are known, how a connection to one
  goes on, and what is done about messages and requests.
- `identity`, `protocol`, `options`, `update`, `text`: names of peers and servers, messages,
  settings, releases, and text.

Calls into other crates stand behind small functions whose doc comments begin with "Trusted".
