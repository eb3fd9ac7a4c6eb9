# Git notes

Git notes next to the lines that they annotate, and as tools that answer questions about them.

The crate is a library whose functions are proved correct with Verus. It runs nothing and reads
nothing itself: it says which git commands to run, and decides from what git wrote.

- `text`, `bytes`, `words`, `lines`, `decimal`: text as a sequence of characters, and the parts of
  it that git's formats are made of.
- `sha`, `notes`, `blame`: what git writes about notes and blame, read. `git_formats` and
  `blame_laws` prove that reading gives back what was written.
- `git`, `fetch`, `cache`, `lookup`, `paths`: the commands, how results are put together and kept,
  and which repository a file belongs to. `path_laws` proves what holds of paths.
- `annotate`, `hints`: which lines show a note, and what the editor displays. `shown_laws` follows
  the notes from git's output to the lines.
- `tools`, `json`, `mcp`: the tools and the protocol that they are offered over. `tool_laws` and
  `mcp_laws` prove that every request is answered, and with what.
- `launch`: how the editor gets hold of the language server.

`app/` is the program around the library: the language server, the tool server and the editor
extension. It runs git, talks to the editor and keeps the clock.

## What is trusted

The functions marked `external_body`, and the one `assume_specification`, state what the crate
relies on without proof: how `String` grows, how bytes are decoded as UTF-8, what `serde_json` reads
and writes, which path a file URI names, and how paths without a root are taken apart. Each says so where it stands.
