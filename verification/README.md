# rayd

The core of a runtime for distributed tasks, actors and objects, with its behaviour stated
in contracts and proved by Verus.

- `src/kernel`: identifiers, object metadata, references, the in-process store, reference
  counting and the worker.
- `src/plasma`: the shared-memory object store: allocation, wire protocol, server, client
  and metrics.
- `src/gcs`: the cluster's control service: nodes and the stream of their changes, jobs and
  named actors.
- `src/raylet`: the agent of a node: who holds which object, which nodes there are, objects
  spilled to disk, and the transfer of objects.
- `src/driver`: tasks and their lineage, worker processes and their results, and values as
  the user sees them.
- `src/cli.rs`: decisions of the command line.
- `src/util`: bytes, texts, paths, tables, the clock and metrics in text form.

Each module states what its functions do over mathematical models, and holds the laws that
relate several functions as public proof functions named `law_*`.

Sockets, threads, files, processes, the network and Python are in `app`, around the
library. Where an operation alternates such work with decisions, the library has one
function per step, which says what to do next.
