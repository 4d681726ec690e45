# vocab_lessons

The logic of a desktop vocabulary trainer (curriculums, books, units, lessons
and words kept in SQLite), written in Verus and proved against its contracts.

- `src/` is the verified library:
  - `text`, `keys`: strings, decimal numbers, trimming, sets of keys;
  - `ids`, `words`: record identifiers and audio file names of words;
  - `queries`: the SQL text and parameters of the paged and filtered reads;
  - `schema`, `seed`, `init`: bringing a store's schema up to date, deciding
    whether the bundled catalogue must be written again, checking the counts
    it leaves, and the step function that drives the store's setup;
  - `unit_words`, `lessons`, `catalogue`: grouping words by unit, the values
    written for lessons and their words, and the shapes of the answers;
  - `audio`, `ipa`: where word audio is looked for, what the dictionary page
    gives, and the transcriptions answered for lists of words.
- `tests/` runs the library on concrete values.
- `app/` is the Tauri program: the commands, the SQLite store, the network and
  the files. It runs the library's step functions and hands it plain values.
