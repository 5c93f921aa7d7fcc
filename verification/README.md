# mail_mcp

The verified core of a mail MCP server (IMAP, SMTP and Microsoft Graph), written in
Verus.

- `src/` is the library. Verus proves each of its functions against its contract,
  except the small wrappers around outside crates (`lettre`, `chrono`, `regex`, ...),
  whose contracts are trusted and name what the outside call returns:
  - `config`, `env`, `registry`: the configuration read from a snapshot of environment
    variables (accounts, OAuth2 settings, SMTP accounts, global settings), kept in
    registries ordered by account id;
  - `validate`, `ids`, `encode`: checks of tool requests, message identifiers, UID sets,
    message URIs and base64;
  - `search`: search requests, the IMAP `SEARCH` query, and paging through a result
    snapshot with cursors;
  - `ops`: the checks of the mailbox write tools and the step plans of copying, moving
    and deleting;
  - `tools`: issues, statuses, suggested next actions and account listings;
  - `compose`, `mail`, `smtp`, `graph`: composing, replying to and forwarding mail, the
    MIME message built with `lettre`, and the Microsoft Graph request;
  - `transport`: the SMTP transport of an account: the relay kind its security mode
    calls for, with its port, timeout and credentials applied;
  - `help`: the `--help` text with secrets redacted;
  - `text`: the string operations the rest is written with.
- `tests/` runs the library on concrete values.
- `app/` is the program around it: reading the environment, printing help, and serving
  the MCP tools over stdio with SMTP as the transport.
