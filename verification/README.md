# audiobookbay

Search AudioBookBay for audiobook torrents from the command line. What the program decides and
computes is a library that Verus verifies; requests, files and the terminal are left to the program
around it.

- `src/` is the verified library.
  - `text`: finding, cutting and trimming text, lines, decimal numbers
  - `html`: what is read from a page, taken out of it by `scraper`
  - `results`, `detail`, `posts`: a page of results, the page of a book, posts that a page hides
  - `encoding`, `magnet`: percent-encoding and magnet links
  - `session`, `auth`, `config`: logging in, which session is used, and where the settings come from
  - `search`, `fetch`, `retry`: which page, which book and which attempt comes next
  - `torrent`, `display`, `progress`: file names, and what the user gets to see
- `tests/` runs the library on concrete pages and values.
- `app/` is the program.

Functions named `law_*` state what holds of the library as a whole.
