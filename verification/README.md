# lynx_mcp

An MCP server that lets a language model drive Chrome through the page's accessibility
tree: snapshots with stable element refs (`e0`, `e1`, …), compact and diff views of a
snapshot, clicking, typing and key presses by ref, and logging in with credentials from
the 1Password CLI.

The crate is written in Verus.

- `src/` is the verified library: the snapshot model (`snapshot::tree`, `snapshot::diff`,
  `snapshot::compact`), the instance registry (`browser`), the per-instance decisions and
  reports (`browser::instance`), the page scripts with their arguments in place
  (`browser::scripts`), settings (`browser::config`), the login planning and the 1Password
  answers (`auth`), the tool replies (`server`), base64 of captures (`encoding`), and the
  character-level text operations they share (`text`).
- `app/` is the program around it: the MCP transport (rmcp), Chrome over CDP
  (chromiumoxide), the `op` process, the environment, and the JSON (serde) copies of the
  library's types.
- `tests/` runs the library on concrete values.
