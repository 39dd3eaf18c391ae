# auto_drama

A short-drama writing agent driven by local Ollama models: it plans,
writes, reviews and polishes a script stage by stage, repairs what its
reviews reject, remembers decisions across runs, tracks goals and commits
each step to git.

The library under `src/` is written in Verus and verified: the skill
registry and its Markdown skill format, prompt templates, the memory store
and goal tracker, the tools the model may call, the git command sequences,
the repair and retry loops and the orchestration steps, each with a
contract.  Properties that relate several functions are proved in
`src/laws.rs`.

The program under `app/` is ordinary Rust around it: the command line,
HTTP calls to the model server, files, processes, serde formats and the
floating-point quality grading.  It hands the library plain values and
performs the reads, writes and commands the library names.

Tests of the library are under `tests/`.
