# pico_scopehal

A network front end for PicoScope oscilloscopes, with its logic verified by
[Verus](https://github.com/verus-lang/verus).

A client such as ngscopeclient sends text commands on one connection (port 5025 unless told
otherwise) and gets frames of samples on another (port 5026). A second program records samples
from channels A and B into a CSV file.

- `src/` is the library: parsing and carrying out commands, the settings of a scope, framing and
  flow control of waveforms, the choice of a device and the rows of a recording. Every function
  states what it returns or changes, and Verus proves it. `laws.rs`, `readback.rs`,
  `lines.rs`, `conversation.rs` and `frames.rs` state what holds of several functions together.
- `app/` is the programs around it: sockets, threads, the drivers, the CSV file, and the text form
  of floating-point numbers.
- `tests/` runs the library.

What is taken on trust, each with a comment that says what for: `String::push` of the standard
library, the integer writers of `byteorder`, and two small functions of `pico-common`.
