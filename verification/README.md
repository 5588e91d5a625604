# sexy

A crawler for two video sites, cosplayjav.pl and japonx.vip, whose logic is verified with
Verus.

- `src/` is the library: reading post pages and listing pages, post records and how they
  are printed and stored, the crawl plan (which listing pages to fetch, which posts to read,
  in which batches, and when to stop), and the settings. Every function carries a contract
  that Verus proves. Calls into `select`, `regex` and `colored` go through a few trusted
  wrappers whose contracts name what those crates return.
- `app/` is the command-line program: argument handling, the settings file, HTTP requests,
  the anti-bot check, worker threads, printing and the database.
- `tests/` runs the library on concrete pages and values.

Usage is that of the program: `sexy --help` lists the options (`--site`, `--fetch`,
`--parse`, `--thread`, `--after`, `--recent`, `--database`, `--silent`, and the `config`
subcommand with `--show` and `--proxy`).
