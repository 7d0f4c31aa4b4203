# steel_core

The IP access control of the Steel Minecraft server, written in Verus with
its behaviour stated in `requires` / `ensures` contracts and proved.

- `src/` is the verified library:
  - `ip_access_policy` — ban list, shadowban list and whitelist, with the
    laws that tie banning, pardoning, expiry and the accept-stage gate
    together; `ban` — the earlier ban / whitelist / blacklist manager;
    `ban_list` — what the two ban lists share, with the laws of banning,
    pardoning and expiry.
  - `commands` — what the `ban-ip`, `pardon-ip`, `blacklist-ip`,
    `whitelist-ip`, `kick` and `steel` commands decide.
  - `arguments` — the duration, IP and string argument parsers.
  - `snbt` — which SNBT reason texts the text-component parser is known
    to return on, and a verified test for it.
  - `serial` — reading big-endian protocol values (integers, options,
    arrays, UUIDs and `glam`'s integer vectors) from a byte cursor.
  - `blocks` — placement and shape-update rules of a few blocks.
  - `cli` — the command line and the `convert banned-ip` decisions.
  - `net`, `time`, `text`, `key_set` — addresses, times, text components
    and hash sets, with the trusted wrappers over `chrono`,
    `text_components` and `rustc_hash`; `serial` holds those over `uuid`
    and `glam`.
- `tests/` runs the library on concrete values.
- `app/` is the `steel` binary: command-line parsing with `clap`, and the
  JSON / TOML files of the ban lists with `serde`.
