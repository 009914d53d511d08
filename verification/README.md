# quarto_term

Runs the code cells of a document in one persistent terminal session and
renders what the terminal shows as HTML, LaTeX, Typst, Markdown, OpenXML
or ODF markup.

The library (`src/`) is verified with Verus. It holds the terminal cell
model, the renderers for every format, the translation of key names into
the bytes a terminal sends, the clean-up of captured output (trailing
prompts, spacing, removed, truncated and annotated lines), and the
decisions a session takes around its I/O: the prompt patterns, the
command that starts the shell or its container, how each line of a cell
is sent, the replies owed to terminal queries, and where a cell's output
starts and ends.

`app/` is the program around it: it reads the JSON request, drives the
pseudo-terminal and the virtual terminal, sleeps and times the typing,
writes recordings, and prints the JSON results. Floating-point settings
(timeouts, delays, font sizes in other units) are handled there.

Regular expressions (`regex`), JSON string quoting (`serde_json`), random
typo keys (`rand`) and Unicode lower-casing are called from the library
through small trusted wrappers whose contracts name what they return.
