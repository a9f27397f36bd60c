# snps-core

The core of PMSynapse, a project-management tool built around knowledge
repositories, thought documents, workflow (IDLC) configurations and the
sessions of a coding assistant, written in Verus. The functions in `src/`
carry contracts that Verus proves, except the small wrappers marked
`#[verifier::external_body]` around outside calls (std, chrono, sha2,
regex, serde_json, uuid, dirs, whoami): their contracts are trusted, and each
says in its doc comment what it claims of the call.

Layout:

- `src/` — the verified library.
  - `config` — layered settings (built-in, personal, team, project), with
    the layer each setting came from, and the settings report.
  - `knowledge` — knowledge repositories, their precedence, the plan that
    copies their files into a project, and the git exclude file.
  - `repository`, `matter` — the repository registry and matter files
    (paths, frontmatter framing, names of kinds, scopes and visibility).
  - `thoughts` — thought documents: their texts and paths, search and list
    filters, profile and ignore-file edits, git hooks.
  - `idlc`, `workflow` — workflow configurations, their validation and item
    transitions.
  - the session modules — parsing session records into sessions, their
    statistics and hierarchy, their export as threads, Markdown and HTML,
    and the analysis report.
  - `sessions`, `daemon`, `update`, `graph`, `api`, `llm`, `templates` —
    session listings, daemon files, update checks, the provider fallback of
    the language-model router, and smaller types.
  - `text`, `foreign` — string helpers with their specifications, and
    wrappers for time, JSON and UUIDs. Other wrappers stand beside the code
    that uses them (paths, hashing and patterns in `knowledge`, letter case in
    `matter` and the HTML page, the environment in `config`, error texts in
    `lib.rs`).
- `tests/` — tests run against the compiled library.
- `app/` — the `snps` command: argument parsing, files, processes and
  printing around the library.

Not here: the knowledge graph and the search index of matter files are
stored in a CozoDB database, which this build does not include, so neither
the graph, its daemon server, nor `matter search` is part of it. The desktop
app, the web build and the language-model providers themselves are not part
of it either; `app/` holds the router that drives providers, without any.

Maps held as vectors: the sessions-and-agents map of the session analyzer,
the record of which layer each setting came from, and the per-tool counts of
session statistics are keyed by strings. The standard `HashMap` that held
them has a specification in this Verus build that proves facts such as the
size after an insert only for integer keys; with string keys nothing about
the contents could be proved. The library therefore keeps each as a vector
with one entry per key (an insert replaces the entry with the same key, or
adds one at the end, so entries stay in the order their keys were first
seen), and its contracts state lookups and inserts over that vector.
