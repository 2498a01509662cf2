# spai

An agent orchestration harness whose decision logic is written in Verus and
proved against its contracts.

## Layout

- `src/` — the verified library. Agents and their ReAct loop decisions
  (`agent`, `react`), memory blocks and their tools (`memory`,
  `memory_tools`), background runs (`background`), orchestration patterns
  (`orchestrator/*`), sleep-time consolidation (`sleeptime`), Solid pod
  access, consent and DPoP tokens (`solid/*`), JSON values (`json`), text
  handling (`text`), tallies and rankings (`tally`), summaries of security
  scanner reports (`scans`), capture analysis (`traffic`) and process
  listings (`processes`). Calls into outside crates (regex, url, sha2,
  base64, p256, jsonwebtoken, oxigraph, uuid, chrono) stand behind small
  trusted wrappers. Where a result depends on the arguments alone, the
  contract states it or names it; where it depends on the clock or on
  chance (identifiers, keys, signature bytes), the contract says only what
  holds of every outcome.
- `tests/` — tests of the library on concrete values.
- `app/` — the runtime around the library: language-model clients, the
  agent loop driver, storage, the Solid bridge and the MCP servers for the
  scanners, tshark, ps/lsof/ss and the process table. It performs the I/O
  and hands plain values to the library.

Verify with Verus on `src/lib.rs`; the tests run with the outside crates
linked.
