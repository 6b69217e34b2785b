# are-daemon

`ared`, the Agent Remote Environment daemon: a mutually authenticated
(TLS 1.3, client certificates) RPC server through which an agent reads and
writes files under configured roots, runs structured (shell-free) processes,
and keeps sessions, each request bound to one named environment and checked
against per-client capability grants.

## Layout

- `src/` — the verified library (Verus). Every decision the daemon takes is
  here, with its contract:
  - `framing` — length-prefixed frames;
  - `auth`, `hex`, `ids` — caller fingerprints (BLAKE3 over the leaf
    certificate), hex encoding, CSPRNG identifiers;
  - `paths`, `fs` — the lexical path model, root confinement and symlink
    resolution, and the decisions of every filesystem operation (the
    operating system is consulted by the caller and its answers handed in);
  - `names`, `envvars`, `grants`, `authz` — program names, environment
    variables, capability grants and the authorization checks;
  - `session`, `proc_table`, `process` — the session table (expiry,
    ownership), the process table (eviction, output caps, kill requests) and
    the execution policy;
  - `daemon` — the daemon state and the order in which each request is
    checked;
  - `tls` — PEM credentials and the client-certificate root store.
- `app/` — the binary: command line, TLS listener, JSON wire types, file and
  process I/O, all of it calling the library for every decision.
- `tests/` — tests of the library.

The laws the library promises (confinement of resolved paths, deny-wins
execution policy, kill-on-expiry, output caps, ownership isolation, frame
round trip, and others) are public proof functions named `law_*`.
