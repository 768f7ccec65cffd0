# emmylua_code_analysis (verified core)

The type-rendering and inference-guard core of the EmmyLua code analysis,
written in Verus with its behaviour stated in contracts and proved.

- `src/` — the verified library:
  - `infer_session` — the cross-file re-entry guard (`inferReentryLimit`);
  - `lua_type`, `db_index` — the type values and the part of the workspace
    index that rendering and member lookup read, each with a mathematical view;
  - `render_level`, `render_spec`, `humanize_type` — how a type is rendered
    to text (the recursive specification and the writer that meets it);
  - `instantiate`, `key_order`, `text` — alias instantiation, member-key
    order, escaping and number formatting;
  - `member_map`, `module_ref`, `infer_require`, `type_check_context`,
    `cache`, `infer_cache_manager`, `logger` — member maps, module exports,
    `require`, type-check state, inference caches and log file naming.
- `tests/` — executable tests of the library.
- `app/` — logger setup (files, terminal, time stamps) around the library.
