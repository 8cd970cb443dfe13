# tensorgrid

The core of TensorGrid, a self-hosted runtime that pools the CPUs, memory and
GPUs of the computers on a local network to run large AI models, written in
Verus: the library's functions carry contracts that Verus proves, apart
from the small trusted wrappers around outside crates described below.

## Layout

- `src/` — the verified library: the GGUF model format, the TCP and QUIC
  framing, the coordinator's cluster state and heartbeat watchdog, secure
  pairing, the scheduler, the planner, the pipeline executor, fine-tuning
  jobs, the tensor directory, the model registry, the runtime backends, the
  RDMA model, the node agent's heartbeat loop and the topology rules. Laws
  that relate several operations (what a release undoes of a reservation, a
  header read back after it was written, a challenge answered once, ...)
  stand as proof functions named `law_*` beside the code they speak of.
- `tests/` — tests of the library on concrete values.
- `app/` — the program around it: the command line, hardware probing,
  network I/O (TCP, HTTP API, UDP measurements), the timers and loops that
  drive the library's state machines, and the floating-point estimates.

Calls into outside crates (SHA-256, Ed25519, UUIDs, JSON, clocks, random
numbers, hex and number formatting) go through small trusted wrappers whose
contracts say what those crates do; each names the function it calls.
Verus believes these contracts without proof; nothing else in `src/` is
taken on trust.
