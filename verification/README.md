# crucible_core

The core of an agent runner, written in Verus: prompt-cache policy, pricing
and usage accounting, the canonical stable-prefix projection of a provider
request, provider spend limits, tool descriptors, results and
rosters, a generation-checked registry, and the sandbox boundary (capability
claims and their negotiation, inspection reports and checkpoints, filesystem/network/resource policy and its narrowing, command
guardrails, workspace manifests, command images and environments, and the
decisions behind reading a confined stream and waiting for a confined process
to finish).

Layout:

- `src/` is the verified library. Every public function states what it
  returns in `ensures`, over spec functions and views; the laws the library
  keeps across calls are public proof functions beside the code they speak of.
  Calls into `uuid`, `getrandom`, `sha2`, `serde_json` and `globset`, and a
  few `std` calls, stand behind
  small trusted wrappers whose doc comments say what is assumed of them.
- `tests/` runs the library on concrete values.
- `app/` holds what runs on threads, clocks and pipes: the shared steering
  queue and revealed-tool set, the blocking reader over a confined stream, and
  the wait for a confined process to finish. Each performs a decision the
  library made.
