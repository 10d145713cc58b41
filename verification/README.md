# rust_shell

A small Unix shell. The library (`src/`, verified with Verus) holds the
lexer and the parser that turn a command line into a command syntax tree,
the text of commands and jobs, the decisions taken while a command runs
(builtins, argument vectors, redirection modes, `&&`/`||` continuation),
the bookkeeping of background jobs, and what each user input leads to.
`app/` is the program around it: the terminal (rustyline), and processes,
pipes and redirections (nix).

Layout:
- `src/command_analysis/lexing.rs`, `parsing.rs`: tokens and syntax tree,
  with their specifications and the laws they obey.
- `src/command.rs`: the syntax tree and its text; `src/command/`: builtins,
  execution steps, background jobs.
- `src/cli.rs`, `src/cli/`: the user inputs and the prompt.
