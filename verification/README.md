# plotline

A plotline manager: entities, the events they take part in, and the
experiences those events cause on them, kept in order of time.

- `src/` is the verified library: the interval search tree (`interval`),
  periods, names and ids, the entity, event and experience repositories and
  use cases, the constraints an experience must meet to fit in the succession
  of experiences of an entity (`experience::constraint`,
  `experience::domain`), moments, and what each command of the command line
  does and writes (`cli` and the `cli` module of each resource).
- `app/` is the `plot` program: it parses the command line, loads and saves
  the YAML file that keeps the data, runs the commands of the library and
  prints what they write.
- `tests/` exercises the library.
