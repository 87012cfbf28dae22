# agent_k_backend

The verified core of a workspace backend for AI agents: users keep files,
connect outside sources (object stores, Notion, Gmail, Google Drive) as
mounts, point a knowledge index at parts of their tree, chat with agents in
sessions, and schedule automations that run agents on their own.

The library in `src/` holds the rules of that backend, each function with a
contract that Verus proves:

- `storage`, `fs_v2`, `io`: the on-disk layout and the path checks that keep
  every joined path inside its root.
- `knowledge`, `reconcile`: knowledge references (`*.ref` files) and the
  reconcile pass that decides which indexed documents to keep, which to
  purge, and how to batch new ingests; the counters that coalesce bursts of
  resync requests.
- `unified`, `davfile`, `dav`, `snapshot`: the unified workspace tree (local
  files plus provider mounts), WebDAV paths and cursors, and snapshot diffs.
- `forward`: the request parser and planner of the sandbox forward server.
- `session`, `chat`, `prompt`: the bookkeeping of an agent turn (partial
  text, pending tool calls, interruption), the message stream a client
  attaches to, session records, and the workspace section of the prompt.
- `automation`, `automation_api`: run lifecycle, retries, triggers, webhook
  tokens, the checks of the automation routes, and the calendar preview.
- `mounts`, `agents`, `project`, `workspaces`, `ownership`, `ingest`,
  `appcache`, `ids`, `strmap`, `text`, `api`: provider mounts, agent types,
  project slugs, workspace rules, tenant checks, the ingest job queue, the
  in-memory caches, identifiers, and the string helpers the contracts use.

Calls into outside crates (`sha2`, `uuid`, `slug`, `nanoid`) stand behind a
few trusted wrappers whose contracts are stated next to them.

`app/` is the unverified shell around the library: serde forms of the
request and response types, file I/O, the forward server's socket loop, and
the drivers that feed an agent stream into the turn bookkeeping.

`tests/` exercises the library on concrete values.
