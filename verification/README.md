# intellisense

Property and pin resolution for a Glacier entity editor, verified with Verus,
and the editor shell that drives it.

- `src/` is the verified library:
  - `cppt`, `blueprint`: converting class tables and material, UI and
    extended-class blueprints into property rows and pins;
  - `entity`, `store`, `rows`, `unique`: the entity model, the caches and
    loaded resources, and the list helpers resolution uses;
  - `resolve`, `query`: what the properties, a single property and the pins
    of a sub-entity are, and the functions that compute them; resolution
    answers `Fault::Needs` for a resource it has not been given, and the
    caller loads it and asks again;
  - `laws`, `progress`, `stability`: the properties proved of resolution as
    a whole;
  - `browser`, `shell`: game-file search and the shell's answers to
    file-system notifications;
  - `hash`: naming a factory by its hash when it is written as a path;
  - `text`, `model`: strings, the values rows carry, and errors with the
    context they arose in.
- `app/` is the shell: events in and requests out as JSON lines, file and
  project work, the folder watcher, and loading extracted resources for
  resolution.
- `tests/` exercises the library on concrete values.
