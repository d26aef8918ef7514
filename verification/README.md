# contract_runtime

A runtime that builds smart contracts (Go chaincode and Solidity) and keeps
ledgers on disk. The library in `src/` is verified with Verus; `app/` holds
the parts that touch the outside world.

- `fs_path`: path joining and file extensions, stated as functions on
  character sequences.
- `blockdb`, `kvledger`: where a ledger's block store, state database and
  id store live under the root directory, and how ledger ids are encoded
  as store keys and listed back.
- `repl`: classification of a typed command line; what the option
  parser prints is handed back to the caller.
- `contract`, `service`: the build of a contract as a state machine; each
  step says which directory to list or which tool to run next, and how a
  report ends or continues the build.
- `handler`: the fields of a command form.
- `pack`: archive detection, and the plan of a ZIP archive's extraction:
  which entries are written where, read from the archive bytes. Every
  planned target stays under the destination.
- `ledger`: blocks and the validation of their transactions, on the
  block itself: its metadata is reset, each transaction is given a
  verdict from how it decoded and, when decoded, from its reads, in
  order, and the verdict's byte is stored in the block's transaction
  filter. A read of a key (public, or private and known by its hash)
  written earlier in the block, or whose committed version is not the
  version read, is a read conflict. The public and hashed writes of valid
  transactions form the block's update batch. What the state database
  reports for each key (a version, or an error) and the writes it refuses
  are handed in as values.
  The metadata index of the transaction filter, the byte of each verdict
  and the number of metadata entries are parameters.
- `text`: splitting and joining text, and UTF-8 decoding.

`app/` runs the tools, reads directories, unpacks archives and serves the
HTTP API, asking the library at each decision.
