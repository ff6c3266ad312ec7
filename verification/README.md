# mrk_core

The ledger of the MRK network: accounts and fees, networks and their members, relay nodes and
their rewards, reachability probes, traffic payments, governance, the treasury, and the chain of
blocks that the first node or a committee of validators agrees on.

`src/` is the ledger itself. Every function states in its contract what it returns and how it
changes the ledger, over a mathematical model of the ledger (`LedgerModel` and the models of its
records in `model.rs`), and Verus proves it. What holds of several functions together stands in
public proof functions beside them.

* `model`, `views`, `table`, `sequence`, `search`, `text`, `number`, `amount`, `payload`, `json`:
  data and how it is written.
* `protocol`, `parameter`, `settings`: the constants of the protocol and what governance can set.
* `accounts`, `fees`, `operations`, `envelope`, `drafts`, `transfers`: operations and what they cost.
* `networks`, `sessions`, `network_operations`, `members`, `payments`, `traffic`: networks, their
  members and the traffic that they pay for.
* `nodes`, `lifecycle`, `registration`, `bonds`, `node_operations`, `node_drafts`, `registry`, `ip`,
  `endpoint`: the registry of nodes.
* `epochs`, `rewards`, `vesting`, `availability`, `attestation`, `probes`: epochs, rewards and the
  probes that they rest on.
* `voting`, `treasury`, `governance`, `proposals`, `ballots`, `steering`: governance.
* `chain`, `blocks`, `committee`, `execution`, `production`, `proposing`, `consensus`, `candidates`,
  `history`, `catchup`, `peers`: blocks and the agreement on them.
* `supply`, `value`, `continuity`, `extension`, `soundness`: what holds of all operations and blocks
  together: nothing is minted but by blocks, value is conserved, and a sound chain stays sound when
  operations are taken over, blocks are added and old blocks are pruned.
* `storage`, `overlays`, `ranking`, `pruning`, `backups`, `diagnostics`, `queries`, `explorer`: what
  is stored, kept and shown.
* `crypto`: digests and signatures. Here and in `json`, `endpoint` and `text` stand the few functions
  that call other crates or the standard library on trust, each with what is claimed of it.

What is signed is first drafted: a draft holds the operation and the ledger in which its effect has
been applied. The caller encodes and signs the operation and commits the draft with the signature.

`app/` keeps files, keys and the database around the library. `tests/` runs the library.
