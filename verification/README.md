# bowtie

The core of the bowtie social site, verified with Verus.

- `src/` is the library: sessions and the views a user switches between,
  comment threads and their paths, the search form, the view settings form,
  compiled style sheets, page resources and the pages built from them,
  password hashes, and decimal reading and writing of ids. Each public
  function states what it returns in its contract, and the laws that tie
  functions together are proof functions beside them.
- `app/` is the web site around it: Rocket routes and request guards, the
  PostgreSQL queries (Diesel), the signed session cookie (medallion), Tera
  templates, and compiling Sass and scripts from disk.
- `tests/` runs the library on concrete values.
