# filedrop

The core of FileDrop, a tool that sends files between computers on the same
local network, written in Verus and proved against its contracts.

- `src/` is the verified library:
  - `protocol` frames control messages (four-byte big-endian length, body);
  - `offer` checks incoming offers and assembles outgoing ones;
  - `names` refuses unsafe file names, makes names portable to Windows and
    picks destinations that never overwrite;
  - `integrity` computes SHA-256 digests of file contents in hexadecimal;
  - `transfer` holds the decisions of a running transfer: progress, checks
    on arriving files, how a transfer ends;
  - `sending` is the sender as a state machine: the offer, each file's
    header and contents in order, then the completion frame;
  - `receiving` is the receiver as a state machine: the offer's checks, the
    user's answer, a destination of its own for every file, the files into
    temporary files checked against their digests, and the moves to the
    destinations once the completion frame matches;
  - `discovery` turns network announcements into the device listing and
    builds this device's announcement;
  - `registry`, `cancel`, `identity`, `models`, `order` and `text` hold the
    backend's bookkeeping, cancellation flags, the device identity, the
    shared values and character-level helpers.
- `app/` is the unverified shell: files, sockets, threads, mDNS, and the
  JSON forms of the library's values. It runs the two state machines,
  performing each action and handing back what it observed.
- `tests/` runs the library on concrete inputs.

Some choices:

- The desktop window (the Tauri commands and the entry point) is plumbing
  around the backend and has no logic of its own; it is not part of this
  crate, and neither are the Tauri crates.
- The backend keeps its running transfers, pending decisions, cancellation
  flags and nearby devices in `KeyedRegistry`, a map keyed by text whose
  contents are proved, in place of a `HashMap<String, _>`; the destinations
  reserved during one transfer are a `ReservedNames` set of file names in
  place of a `HashSet<PathBuf>`.
- Summing the sizes of the selected files panics on overflow, as the sum
  does in a debug build; the sender's byte count does the same.
- Socket addresses of nearby devices are parsed in the shell, where the
  socket is opened.
