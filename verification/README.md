# btc_lottery_miner

A solo Bitcoin miner ("lottery" mining against a Bitcoin Core node), written as a Verus
library with a thin command-line program around it.

## Layout

- `src/` — the verified library:
  - `bytes.rs` — little/big-endian byte-string values and their lemmas;
  - `hexcode.rs` — hex text as the `hex` crate reads and writes it;
  - `merkle.rs` — double SHA-256, merkle roots (odd levels duplicate their last node), byte reversal;
  - `coinbase.rs` — CompactSize, the BIP34 height push, the coinbase scriptSig and transaction;
  - `sha256_host.rs` — SHA-256 (FIPS 180-4): the compression function, padding, the digest, and the
    header midstate it resumes from;
  - `template.rs` — decoding the `getblocktemplate` fields;
  - `mining.rs` — the job, header assembly, the proof-of-work test, the nonce search, block assembly,
    per-thread extranonces;
  - `gpu_mining.rs` — the work unit uploaded to the GPU, the host re-check of GPU hits, the search position;
  - `shared.rs` — the state the CPU threads share;
  - `config.rs`, `gpu_config.rs` — the settings, their checks and when a new template is due;
  - `rpc.rs` — the HTTP basic credentials, the endpoint URL, the reading of a JSON-RPC answer, the
    `submitblock` answer and what the miner does after it.
- `tests/` — tests of the library on concrete values.
- `app/` — the program: command line, configuration files, JSON-RPC over HTTP, threads, CUDA.
