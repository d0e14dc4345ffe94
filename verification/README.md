# ssh_config editing, verified

A library that reads ssh_config files and edits them without losing their
formatting, written in Verus: every public function carries a contract that
Verus proves.

- `src/lexer.rs`, `src/line.rs`, `src/section.rs`, `src/ssh_config.rs`: the
  document layer. Text is cut into tokens, tokens into lines, lines into a
  preamble and sections; writing a parsed document back gives the same bytes
  (`lemma_parse_then_write`).
- `src/settings.rs`, `src/reconcile.rs`: the settings of a host, and how they
  are written back into a section (`SSHConfig::set_host_settings`).
- `src/readback.rs`: what reading gives back after writing
  (`lemma_read_back_after_set`), and that comments and blank lines survive an
  edit (`lemma_reconcile_keeps_trivia`).
- `src/stable.rs`: setting the same settings a second time changes nothing
  (`lemma_set_twice`).
- `src/field_keys.rs`: the keywords of ssh_config(5), read whatever their
  case (`lemma_keyword_any_case`, `lemma_keywords_read_back`).
- `src/tokenizer.rs`, `src/field.rs`: a simpler tokenizer, whose tokens
  cover the text and keep their shapes (`lemma_scan_text`,
  `lemma_scan_shape`), and a key/value store keyed by lower-cased text.
- `app/lib.rs`: reading a file, then tokenizing it.
