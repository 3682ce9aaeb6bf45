# opencli_rs

The verified core of a browser-automation command line tool.

- `src/` is the library, verified with Verus:
  - `text`: escaping for single-quoted JavaScript literals, decimal
    rendering, Unicode trimming, substring search and line splitting;
  - `dom_helpers`, `stealth`: the JavaScript snippets injected into pages;
  - `auth`: home directory, paths under it (joined by the Unix or the Windows
    rules of `PathBuf`, chosen by the caller), and the choice of daemon token;
  - `config`: language-model settings;
  - `external`: definitions of outside tools, merged and upserted by name;
  - `llm`, `ai_generate`: the request sent to a language model (headers and
    body parts), reading and cleaning its reply, and fixing up the generated
    YAML adapter;
  - `bridge`: the decisions of connecting to the browser daemon;
  - `error`: the error type.
- `app/` is the plain Rust around it: environment, files, YAML and JSON,
  HTTP and the daemon process.
- `tests/` exercises the library.
