# radix_engine

A verified library of pieces of the Radix engine and its tools, written in Verus.

- `src/` is the library. Every function carries a contract that Verus proves:
  - `static_resource_movements`, `manifest`: a static analysis of a transaction manifest that
    works out, without running it, what each account withdraws and receives, with bounds on
    every amount and the history of how each bound came about.
  - `epoch_manager`, `non_fungible_resource_manager`, `system`, `resolve_method`: blueprint
    logic of the engine (rounds and epochs, validator sets, minting, burning and updating
    non-fungibles, system calls, method resolution).
  - `memory`: the in-memory substate store.
  - `custom_schema`: the Scrypto-specific schema rules.
  - `preparation`, `intent_signatures`, `validated_transaction`, `cuttlefish`: transaction
    preparation limits, the executable form of a validated transaction, and the Cuttlefish
    protocol update.
  - `resource_manager`, `royalty`: the client-side calls of the Scrypto library.
  - `resim`, `new_package`, `cli_values`: the decisions of the simulator and of `scrypto
    new-package`, and the parsing of their decimal and hexadecimal arguments.
  - `assoc_map`, `types`: a verified map kept as a list of entries, and shared value types.
- `app/` is the command-line side: clap argument types and file output around the library.
- `tests/` runs the library on concrete values.
