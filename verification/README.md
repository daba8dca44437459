# ccauto

Rule-driven terminal automation: agents run shells in pseudo-terminals,
triggers type into them at startup or periodically, and rules answer what
the terminals print, by pattern or after a quiet period.

- `src/` is the verified library: configuration validation, key encoding,
  command-line parsing, rule matching and timeouts, the terminal-state
  monitor, the kept output buffer, retry backoff, event subscriptions and
  the commands of the entry workflow, each with its contract; `law_*` proof
  functions state the properties that hold across calls.
- `app/` is the program around it: argument parsing, the YAML file, the
  pseudo-terminals, processes and timers.
- `tests/` exercises the library on concrete values.
