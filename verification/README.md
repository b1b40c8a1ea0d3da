# blog_gen

The library of a static blog generator, verified with Verus.

- `src/markdown`: the markdown options of the site, comrak's parse tree as `DocNode`, its
  pre-order walk, and the extraction of an article's YAML front matter.
- `src/page_gen`: the list pages (all articles, all tags, the articles of a tag) and the links
  they hold.
- `src/tree_sitter_adapter`: the Tree-sitter highlighter: scope names, language lookups, and the
  HTML of a highlighting run.
- `src/text.rs`: characters of strings and the line splitting of `str::lines`.
- `app/`: file and directory reading, YAML and template rendering through serde and Tera, the
  syntect theme, and comrak's highlighter plugin trait.
