# recsys

A small recommendation library. Items come from outside sources (arXiv,
Hacker News), are turned into feature representations, and are ranked
against what a user engaged with and ignored.

Layout:

- `src/` — the verified library:
  - `item.rs`: items, their metadata and the user profile;
  - `text.rs`: string helpers (substring search, joining, decimal text);
  - `xml.rs`: reading XML with `quick_xml` into plain events;
  - `arxiv.rs`: the Atom feed parser as a state machine over events, the
    arXiv query parameters and the pacing of requests;
  - `hackernews.rs`: search parameters and the conversion of hits to items;
  - `engine.rs`: the pluggable traits and the engine builder;
  - `ollama.rs`: settings and request body of an Ollama embedding server.
- `app/` — HTTP, files, clocks, async code and the floating-point scorer.
- `tests/` — tests of the library.
