# chew_tts

The planning and parsing core of a CUDA speech-synthesis engine, written in
Verus. The library decides what is computed; a thin layer around it reads
files, does the floating-point work of the host and runs the plans.

## Plans

A model is a set of buffers, named by their index in a `device::Plan`. Running
a part of a model appends steps to the plan: buffers that are supplied from
outside, fresh buffers, uploaded integers, and kernel launches. The meaning of
a plan is the sequence of terms that its buffers hold once all steps have run,
so the contract of every model function says exactly which term its result is,
over the terms of its weights and inputs. A well-formed plan never names a
buffer that does not exist and never lets a kernel reach beyond one.

Floating-point numbers appear in the library by their bits only. The talker
stack is generic over the precision of its weights, which decides the kernels
that run it.

## Layout

- `src/device` – plans, kernels and their values.
- `src/weights.rs`, `src/loading.rs`, `src/resolve.rs`, `src/catalog.rs` –
  required tensors, the order in which they are loaded, and inventories of
  weight files.
- `src/gguf` – the GGUF file format, its metadata, quantised weights and the
  tokenizer it describes.
- `src/kernel` – launch geometries, matrix products over quantised weights, and
  what a compiled module needs to run on a driver.
- `src/qwen3_tts`, `src/chatterbox`, `src/kokoro`, `src/vibevoice` – the model
  families: configuration, inspection, weights and execution.
- `src/text.rs`, `src/edit.rs`, `src/layout.rs`, `src/arith.rs`,
  `src/number.rs` – text, rows of values and numbers.
- `src/tokenization.rs`, `src/json.rs` – calls into outside crates, and which
  tokenizer files can be handed to them.
- `tests` – scenarios over the public functions.
- `app` – files, host arithmetic and the device.

Properties that relate several functions are public proof functions whose names
start with `law_`.
