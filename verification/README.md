# paperback_cli

The command line of paperback, a paper backup generator, split in two:

- `src/` is a Verus-verified library with the rules of the command line:
  how many shards a backup may have (`counts`), how unsigned arguments are
  read (`number`), when typed secrets are echoed (`echo`), how multi-line
  prompts end and how their lines are cleaned (`lines`), how codewords are
  split (`codewords`), the prompts and PDF file names (`prompts`), and the
  subcommands' decisions (`commands`). `text` renders numbers and joins text.
- `app/main.rs` is the program around it: `clap` argument definitions,
  terminal and file I/O (`rpassword` for input without echo), and the calls
  into `paperback_core`, which does the cryptography and the PDF output.
