# blackbox_log

A verified reader for the header section of blackbox flight logs, as Betaflight and INAV write them,
and for one of the encodings of their data section.

`Headers::parse` takes the bytes of a log and gives back its headers or the reason why they cannot be
read. Its contract states the result for every input: see `headers_of` in `src/headers.rs`.

| Module | What it holds |
| --- | --- |
| `headers`, `state` | the headers, how they are collected line by line and checked |
| `header_laws` | what holds of the headers of every log |
| `frame` | definitions of the fields of each frame |
| `firmware`, `tables`, `flight_mode`, `units` | firmwares and the names that their numbers and bits stand for |
| `intervals` | which loop iterations have a frame |
| `parser` | decoding of fields |
| `reader`, `text` | bytes and text |
| `header_map`, `date` | the two outside crates that the library calls |
| `data`, `error` | the start of the data section, errors |

Three things are taken on trust, each stated in the doc comment of a small function: how a
`hashbrown::HashMap` behaves (`header_map`), that `core::str::from_utf8` takes valid UTF-8 and nothing
else (`text`), and that `time::PrimitiveDateTime::parse` depends on its arguments alone (`date`).

`app/` holds what works on floating-point numbers or implements traits of other crates: physical
units, dates of the `time` crate, and errors that can be serialised.
