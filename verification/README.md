# ph

The search logic of an Alfred workflow over Phabricator (diffs, tasks, wiki
pages, repositories) backed by Meilisearch, written in Verus.

- `src/` is the verified library: string helpers (`text`), the records and
  their status ranking and index settings (`types`), configuration
  (`config`), the Meilisearch indexes and index jobs (`meili`), query parsing
  and filter building (`query`), command routing and plans (`command`), the
  listed entries (`entry`), and Phabricator request shaping and cache
  checksums (`phab`).
- `app/` is the workflow binary: it reads `~/.arcrc` and the environment,
  calls Phabricator and Meilisearch over HTTP through the cache, and prints
  Alfred items.
- `tests/` runs the library on concrete values.
