# openasr-cli

The decisions of the `openasr` command line, written in Verus and proved.

- `src/` is the library. Every function states what it returns, and Verus proves it.
- `app/` is the program around it: arguments, files, threads, audio devices and the
  speech engine. It asks the library what to do next and does it.
- `tests/` runs the library on concrete values.

## Modules

| Module | What it decides |
| --- | --- |
| `commands`, `backend`, `source`, `serve` | which command needs what; backends, models, packs, the server's launch |
| `transcribe`, `formats` | the steps of a transcription, its refusals, where its output goes |
| `live_options`, `session`, `pipeline`, `flight`, `worker`, `sinks`, `note`, `wav`, `calendar` | a live session: options, frames, partial and final texts, the worker's queue, shutdown, files |
| `receipt`, `receipt_run`, `trace`, `logits`, `capture` | receipts of short audio and the traces they publish |
| `ownership`, `pressure` | evidence of who owns a runtime, and the memory pressure behind it |
| `plugin`, `doctor` | records of the backend plugins; the report on an installation |
| `json`, `text`, `table` | what the others are built from |

Functions whose names begin with `law_` state properties that span several functions
or every input.

## What is taken on trust

JSON parsing (`serde_json`), SHA-256 (`sha2`), and a few functions of the standard
library: UTF-8 decoding, `String::push`, `str::to_lowercase` and the channels of
`std::sync::mpsc`. Each has one wrapper whose comment says what is believed of it.
