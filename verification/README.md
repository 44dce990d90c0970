# rsc

Charging control for MediaTek Android devices, verified with
[Verus](https://github.com/verus-lang/verus). The daemon cuts charging off at one
percentage, resumes it at a lower one, and switches the thermal delimiter while the
battery charges. It acts on kernel events; it does not poll.

- `src/` decides: each function has a contract, and Verus proves it, except for the
  few listed below. Apart from reading the clock and the time zone for the log's
  timestamps it does no input or output. What the kernel nodes, the files and the event
  socket gave comes in as plain values; what is to be done next goes out as plain values.
- `app/` does the rest: it reads and writes the nodes, the log and the configuration, and
  waits on the event socket.
- `tests/` runs the library on concrete values.

These contracts are believed, not proved, because they speak of code outside the crate:

- `logger::local_timestamp`: the form of what `chrono::Local::now` and `DateTime::format`
  give.
- `text::decode_utf8_text`: `std::str::from_utf8`. The text of its error has a name,
  `text::utf8_error_text`, and is not described.
- `text::lossy_text`: `String::from_utf8_lossy`. Its result has a name, `text::lossy_utf8`,
  and is described for valid UTF-8 only.
- `String::push`, in `text`.

| Module | What it holds |
| --- | --- |
| `battery` | capacity and charge state from the kernel's text |
| `config` | settings, defaults, range check |
| `mtk` | the write sequences for the MediaTek nodes |
| `daemon` | one tick: cut off, resume, thermal delimiter, debounce |
| `run` | startup, event loop, shutdown |
| `cleanup` | the cleanup at boot |
| `uevent` | which kernel events count |
| `cli` | the command line |
| `record`, `stats`, `logger` | log entries, counters, line format, rotation |
| `text`, `path` | text and path helpers |
| `laws`, `history` | what holds over whole ticks, and over any number of them |
| `logged`, `logline` | what holds of the log's lines |
