# wow_ui_glue

The client-API layer of a World of Warcraft UI simulator: the state and the
decisions behind the `C_*` namespaces and global functions that the
simulated interface calls from Lua.

- `src/` is the verified library (Verus). Each module holds one area of the
  API: the character-select and character-create screens (`glue`,
  `glue_create`, `glue_data`), profession specialization trees
  (`prof_specs`), chat channels and windows (`channels`, `chat_windows`,
  `chat_info`), auras (`auras`), casting (`casting`), transmog outfits
  (`transmog`), account services and reports (`account`, `reports`), seeded
  macros, pings, delves, loss of control, group-finder activities, frame-close
  verbs, file-path lookup, and the small string and map helpers they share
  (`text`, `search`, `str_map`, `name_set`). Contracts state each
  function's result over a mathematical model; the public `law_*` proof
  functions state properties that span several calls.
- `app/` binds the library to a Lua VM (`mlua`): it reads arguments, calls
  the library, and builds the Lua values handed back. Floating-point parts
  (window colours, curves, number abbreviation, cast clocks) and the Lua
  chunks that the VM runs stay there.
- `tests/` exercises the library on concrete values.
