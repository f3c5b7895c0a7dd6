# git-ai

The decisions of `git-ai`, a companion of git that keeps track of which lines of a
repository an AI agent wrote and which prompts they came from, as a library whose every
function carries a contract that Verus proves.

## Layout

- `src/` is the library.
  - `text`, `text_map`, `text_order`, `paths`, `json`, `json_members`, `file_tree`, `model`: texts,
    maps, paths, JSON values and records, and snapshots of a file system, with their models.
  - `config`, `feature_flags`: settings from the file and the environment.
  - `git/repo_state`: refs, reflogs and rebases of a repository.
  - `daemon/`: following refs through their reflogs, the state of a family of
    repositories, sweeps and the queue of transcripts.
  - `commands/`: the commands, their arguments, what they decide and what they print.
- `app/` is the program around it: arguments, files, processes, the network, the terminal
  and the databases.
- `tests/` runs the library on concrete values.

## Reading a contract

A contract speaks of mathematical models: a text is a `Seq<char>`, a list of texts is
`texts(v@)`, a map is its view. What a function returns is the value of a spec function
with the same arguments. Proof functions whose names start with `law_` state what holds
of several functions together; their comments say it in words.

Functions marked `external_body` call other crates. Their comments name the call and say
what is taken for granted of it.
