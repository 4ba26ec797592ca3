# key_pdf

The inner parts of a PDF reader, with contracts that [Verus](https://github.com/verus-lang/verus)
proves: what is scheduled, planned, allowed, kept and saved, and what is not.

| Module      | What it decides |
|-------------|-----------------|
| `runtime`   | which work of which document an engine does next, and what becomes of it |
| `viewport`  | what a view of a document shows, which tiles it asks for, and how it answers keys and wheels |
| `extension` | what extensions may see and ask for, and whether what they hand over is sound |
| `http`      | which hosts, addresses and answers a request may have to do with, and how much of everything |
| `store`     | who may save annotations over which, where extensions keep values, and whose turn it is |
| `ui`        | how tabs, bars, colors and transitions are shown |

`text`, `text_set`, `keyed`, `lock`, `float_bits`, `geometry` and `document` hold what they share.

Floating-point numbers are kept by their bits and compared in their order; what is computed with
them is computed outside and handed in. Files, threads, the network and the clock are outside too:
`app/` has them, around the library. Views are drawn by whatever toolkit an application uses.

Where the library calls another crate or a part of the standard library that Verus has no
contract for, the function that makes the call says in its documentation what is taken for
granted.

`tests/` runs the library on values.
