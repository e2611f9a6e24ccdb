# ktesio

`kt` installs and shares agent skills: a `skills.json` manifest declares the skills a
project uses and the ones it publishes, `skills.lock` pins each installed skill to the commit
that was fetched, and installed skills live under `.agents/skills/`.

The library in `src/` is verified with Verus: manifest and lockfile rules, install targets
and install planning, skill discovery, reading `git` progress and failures, the skills.sh
search client's decisions, self-update (release targets, SHA-256 checks, archive
extraction), the update check, the `doctor`, `list`, `show`, `export`, `publish` and
`uninstall` logic, and the terminal text shaping (wrapping, table column widths). Each
public function states its result in its contract. Where a function asks something of the
outside (a clock, the release server, a command, the user), its contract says what holds
whatever the answer, and a separate function that takes the answer as an argument states
the result exactly. `src/laws.rs` holds the properties that span several operations.

`app/` is the command line around it: argument parsing, files, `git` processes, HTTP,
prompts and progress bars. It hands the library plain values and acts on what comes back.

`tests/` runs the library on concrete values.
