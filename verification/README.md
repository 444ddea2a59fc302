# nix-agent

The core of `nix-agent`, which installs generated NixOS modules, verified with
Verus.

- `src/chat.rs` classifies the lines of the interactive session and builds the
  generation prompt.
- `src/install/` turns generated text into a valid module function, registers it
  in the aggregator, checks the root configuration, and drives the rebuild with
  its bounded repairs and its rollback. It hands out what is to be read, changed or
  run as values and takes the outcomes back.
- `src/text.rs`, `src/text_lemmas.rs` and `src/paths.rs` hold texts and paths.
- `src/laws/` states what holds over several calls: that rendered imports are read
  back, that registering twice changes nothing, that a system which is not wired up
  is not touched, that an activation ends, and that a failed one is undone.
- `app/` is the part that touches files, the environment, the rebuild and the
  repair backend.

Trusted: the three functions in `src/install/nix.rs` that call the Nix parser
`rnix`. One cuts a text into tokens. The other two read a text, and demand that its
tokens add no more levels to the parser's tree than `src/install/levels.rs` allows:
the parser builds and takes down that tree by recursion, and bounds only a part of
its depth.
