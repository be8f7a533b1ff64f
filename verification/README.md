# Open Scanline

Scanner acquisition, image processing and document export, with its rules proved in Verus.

- `src/` is the library. Its functions carry contracts that Verus proves, but for the calls into
  other crates that are listed below: eSCL endpoints, capabilities, settings and transfers; scan
  and batch sessions; image buffers, geometry and film profiles; TIFF and PDF documents;
  supervision of helper processes; command line options; the state and the jobs of the desktop
  application.
- `tests/` runs the library on concrete values.
- `app/` is the program around it: files, sockets, helper processes, argument parsing and windows.

## What is trusted

A few functions call other crates, and Verus believes what is written above each of them:

| Module | Calls |
| --- | --- |
| `text` | `String::push` |
| `xml` | `quick_xml` (reader and events), `std::str::from_utf8`, `String::from_utf8_lossy` |
| `manufacturers` | `char::is_alphanumeric` |
| `pdf::limits` | `stringprep::saslprep` |
| `pdf::document` | `lopdf::Stream::compress`, `getrandom::fill` |
| `tiff` | `tiff::decoder::Decoder` |

## Conventions

- A type's view (`@`) is its mathematical value. Contracts speak of views and of spec functions.
- `Failure` is the view of `ScanError`; a contract that returns a `Result` states each failure with
  the inputs that give it.
- Decimal settings travel as their bit patterns (`Real`); the library carries and compares them and
  never computes with them.
- Steps that wait on the outside (a socket, a child process, a window) are state machines: the
  library says what to do next, the program does it and reports what happened.
