# bakeryos-preset

Applies and unapplies BakeryOS presets: YAML files whose stages install and
remove packages, back up and restore files, and set GSettings, DConf and
environment values.

- `src/` is the verified library. `preset` plans the steps of a stage,
  `run` decides which stage runs next and when a run stops, `sequence`
  carries out a stage's steps (and a hook's scripts) in order until one
  fails, `backup` keeps the index of backup files and plans the copies,
  `backup_run` backs up and restores a stage's files one after another, `config` records the
  applied presets, `cli` holds the decisions of the command line (re-apply or not, recording
  a new preset before its stages run, the report's figures), and
  `str_map` is the string-keyed map that `config` and `backup` use.
- `app/` is the `bakeryos-preset` command: it parses the command line,
  reads and writes files, runs commands and drives a run step by step.
- `tests/` exercises the library on concrete values.
