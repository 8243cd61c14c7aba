# nanite_clip

The verified core of a PlanetSide 2 clip recorder, written in Verus.

- `src/` is the library. Each module states its behaviour as `requires` /
  `ensures` contracts over spec functions and views, and Verus proves the
  code against them. Public `proof fn`s state the properties that hold
  across calls (for example that normalising audio sources twice changes
  nothing, that background jobs end in the state their events say, or that
  the migration history plan leaves exactly the applied migrations
  recorded).
- `tests/` runs the library on concrete values.
- `app/` is the command-line front end: it reads settings files and saved
  Census and Honu responses, runs the recorder, ffprobe and the desktop's
  openers, runs montages as background jobs on the library's job board,
  and hands the library plain values.
