# mdmf

Compiles a novel or long-form manuscript, described by a YAML file that
lists its parts, chapters and Markdown files, into one `.docx` in standard
manuscript format: Times New Roman 12 pt, double spacing, a title page with
the author's (and agent's) contact block and rounded word count, a `LastName | Short Title | Page`
header, part title pages, chapter headings, scene breaks, `*italic*`, `_italic_`,
`**bold**` and `***bold-italic***`, and smart punctuation.

```
mdmf <path/to/config.yaml> <path/to/output_directory> [--blind]
```

`--blind` leaves the author's name and contact details out.

## Layout

- `src/` is the library, verified with Verus:
  - `args` — the command line;
  - `config` — the configuration and the files read for it;
  - `chars` — whitespace, trimming, lines, word counts, decimal numbers;
  - `numbers` — thousands separators and rounding of the word count;
  - `markup` — which lines become paragraphs, emphasis markers, smart
    punctuation (through `regex` and `pulldown-cmark`);
  - `model` — the laid-out document;
  - `layout` — header, title page, parts, chapters, scenes, word count;
  - `docx` — writing the laid-out document with `docx-rs`;
  - `laws` — properties of the library as a whole.
- `app/` is the program: command-line parsing with `clap`, reading the YAML
  with `serde_yaml`, reading the manuscript files and writing the `.docx`.
- `tests/` runs the library on concrete inputs.
