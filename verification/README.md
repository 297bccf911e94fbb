# statusline

A terminal status line with persistent statistics, as a verified library and a thin program
around it.

- `src/` is the library. Verus proves the contracts of its functions, except those of the
  functions marked `external_body` (see below).
  - `text`, `text_map`, `clock`, `paths`, `utils`: texts, maps with text keys, points in
    time, paths.
  - `digits`, `ratio`, `double`: doubles by their bits, and what is worked out with them, on
    whole numbers.
  - `agents`: transcripts read line by line, each from where the last reading ended.
  - `ant`: the opt-in enrichment: ages, caches, fetching page by page, what may be shown of
    a failure, the search for keys.
  - `database`, `stats`: what is recorded of a session, a day and a month.
  - `layout`, `display`, `render`: the variables of the line, templates, and the line.
  - `commands`: what the subcommands decide and print.
- `tests/` runs the library on concrete values.
- `app/` is the program: arguments, environment, files, SQLite, processes, JSON and TOML. It
  asks the library what to do with them; only sums of amounts that a report gives as decimal
  texts of any length are made there, as doubles.

Amounts of money, percentages, thresholds and rates are doubles, held as their bits. Sums,
differences, products, quotients, comparisons and texts of them are what the machine's
arithmetic gives; the contracts say so of whole numbers, and the proofs are about those.

`show` names the program that a session belongs to, and how the session is resumed there, as
the configuration file says:

    [host]
    name = "the name that the user knows"
    command = "what starts it, before --resume"

What the library takes from other crates without proof stands in functions marked
`external_body`, each with a comment that says what is claimed of the outside function.
