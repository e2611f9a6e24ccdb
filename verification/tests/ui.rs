use ktesio::ui::{compact_source, row_count, short_commit, split_long_word, trim_end_matches, wrap_text};

#[test]
fn test_compact_source_keeps_useful_tail() {
    assert_eq!(compact_source("https://github.com/example/agent-docs.git"), "example/agent-docs");
    assert_eq!(compact_source("git@github.com:example/agent-docs.git"), "example/agent-docs");
    assert_eq!(compact_source("/Users/imagdy/dev/in1t.com/.agents/skills/docs"), "…/in1t.com/.agents/skills/docs");
    assert_eq!(compact_source("~/dev/skm"), "~/dev/skm");
    assert_eq!(compact_source("local/repo"), "local/repo");
}

#[test]
fn test_compact_source_strips_every_git_suffix() {
    assert_eq!(compact_source("repo.git.git"), "repo");
    assert_eq!(compact_source("//a//b"), "/a/b");
    assert_eq!(trim_end_matches("xx.git.git", ".git"), "xx");
}

#[test]
fn test_short_commit_prefers_short_hashes() {
    assert_eq!(short_commit("a1b2c3d4e5f6a1b2c3d4e5f6a1b2c3d4e5f6a1b2"), "a1b2c3d4");
    assert_eq!(short_commit("—"), "—");
    assert_eq!(short_commit("-"), "—");
    assert_eq!(short_commit("not-a-commit-ref"), "not-a-com…");
    assert_eq!(short_commit("main"), "main");
}

#[test]
fn test_wrap_text_handles_empty_long_and_short_input() {
    assert_eq!(wrap_text("", 10), vec![String::new()]);
    assert_eq!(wrap_text("short text", 40), vec!["short text".to_string()]);
    assert_eq!(wrap_text("alpha beta gamma", 10), vec!["alpha beta", "gamma"]);
    assert_eq!(wrap_text("supercalifragilistic", 6), vec!["superc", "alifra", "gilist", "ic"]);
    assert_eq!(wrap_text("a supercalifragilistic b", 6), vec!["a", "superc", "alifra", "gilist", "ic", "b"]);
}

#[test]
fn test_split_long_word_uses_at_least_one_column() {
    assert_eq!(split_long_word("abc", 0), vec!["a", "b", "c"]);
}

#[test]
fn test_row_count_uses_singular_and_plural() {
    assert_eq!(row_count(1), "(1 row)");
    assert_eq!(row_count(2), "(2 rows)");
}
