use repo_embed::contents::{classify, extract, File, Format};
use repo_embed::extract::{config_entries, markdown_prose, source_comments};

fn parsed(path: &str, contents: &str) -> Vec<String> {
    let mut f = File::new(path.to_string(), contents.to_string());
    f.parse();
    f.sentences
}

#[test]
fn new_file_has_no_sentences() {
    let f = File::new("a.rs".to_string(), "// x".to_string());
    assert_eq!(f.path, "a.rs");
    assert_eq!(f.contents, "// x");
    assert!(f.sentences.is_empty());
}

#[test]
fn parse_is_deterministic() {
    let text = "/* a\nb */\n/// c\nfn f() {}\n";
    let mut f = File::new("src/lib.rs".to_string(), text.to_string());
    f.parse();
    let first = f.sentences.clone();
    f.parse();
    assert_eq!(f.sentences, first);
    assert_eq!(parsed("other/lib.rs", text), first);
    let mut g = File::new("notes.txt".to_string(), "raw".to_string());
    g.parse();
    g.parse();
    assert_eq!(g.sentences, vec!["raw".to_string()]);
}

#[test]
fn passthrough_keeps_contents_whole() {
    let text = "  raw text\n\twith // markers\n";
    assert_eq!(parsed("notes.txt", text), vec![text.to_string()]);
    assert_eq!(parsed("Makefile", text), vec![text.to_string()]);
    assert_eq!(parsed("dir.rs/plain", text), vec![text.to_string()]);
    assert_eq!(parsed("a/b.RS", text), vec![text.to_string()]);
    assert_eq!(parsed("empty.json", ""), vec![String::new()]);
}

#[test]
fn doc_marker_wins_over_block_marker() {
    assert_eq!(
        parsed("x.rs", "/// doc /* not-a-block\nlet a = 1;\n"),
        vec!["doc /* not-a-block".to_string()]
    );
}

#[test]
fn block_comment_spans_lines() {
    assert_eq!(
        source_comments("/* start\nmiddle\nend */"),
        vec![" start".to_string(), "middle".to_string(), "end ".to_string()]
    );
}

#[test]
fn block_comment_left_open_keeps_its_lines() {
    assert_eq!(
        source_comments("fn f() {}\n/*open\n  still\n"),
        vec!["open".to_string(), "still".to_string()]
    );
}

#[test]
fn single_line_block_comment() {
    assert_eq!(
        source_comments("x /* a */ y\nz"),
        vec![" a ".to_string()]
    );
}

#[test]
fn comment_marker_priority() {
    assert_eq!(source_comments("//! inner // more"), vec!["inner // more".to_string()]);
    assert_eq!(source_comments("let x = 1; //  note  "), vec!["note".to_string()]);
    assert_eq!(source_comments("a /* b // c */"), vec!["c */".to_string()]);
    assert_eq!(source_comments("fn main() {}\n\n"), Vec::<String>::new());
}

#[test]
fn source_lines_are_trimmed_by_unicode_whitespace() {
    assert_eq!(
        source_comments("\u{3000}// x\u{a0}\r\n\t// y\r\n"),
        vec!["x".to_string(), "y".to_string()]
    );
}

#[test]
fn markdown_code_fence_is_suppressed() {
    assert_eq!(
        markdown_prose("```\ncode line\n```\nprose line"),
        vec!["prose line".to_string()]
    );
    assert_eq!(
        markdown_prose("```rust\nlet a = 1;\n  ```  \n  after  "),
        vec!["after".to_string()]
    );
}

#[test]
fn markdown_headings_and_blank_lines_are_suppressed() {
    assert_eq!(markdown_prose("# Title"), Vec::<String>::new());
    assert_eq!(markdown_prose(""), Vec::<String>::new());
    assert_eq!(markdown_prose("\n   \n"), Vec::<String>::new());
    assert_eq!(
        markdown_prose("# Title\n\n   Some prose.   \n## Sub\nmore"),
        vec!["Some prose.".to_string(), "more".to_string()]
    );
}

#[test]
fn config_lines_are_classified() {
    assert_eq!(config_entries("# hello"), vec!["Comment: hello".to_string()]);
    assert_eq!(config_entries("[section]"), vec!["Table: section".to_string()]);
    assert_eq!(config_entries("key = value"), vec!["key = value".to_string()]);
    assert_eq!(config_entries("key=  value"), vec!["key = value".to_string()]);
    assert_eq!(config_entries("just words"), vec!["just words".to_string()]);
}

#[test]
fn config_edge_shapes() {
    assert_eq!(
        config_entries("\n#no space\n[ a.b ]\n  x =y= z \n\n[open\n"),
        vec![
            "Comment: no space".to_string(),
            "Table: a.b".to_string(),
            "x = y= z".to_string(),
            "[open".to_string(),
        ]
    );
    assert_eq!(config_entries("#"), vec!["Comment: ".to_string()]);
    assert_eq!(config_entries("[]"), vec!["Table: ".to_string()]);
    assert_eq!(config_entries("=v"), vec![" = v".to_string()]);
}

#[test]
fn extension_selects_extractor() {
    assert_eq!(classify("a/b/c.rs"), Format::SourceComments);
    assert_eq!(classify("a/b/c"), Format::Passthrough);
    assert_eq!(classify("docs/README.md"), Format::Markdown);
    assert_eq!(classify("Cargo.toml"), Format::Config);
    assert_eq!(classify("a.rs/b"), Format::Passthrough);
    assert_eq!(classify("archive.tar.rs"), Format::SourceComments);
    assert_eq!(classify("x.rsx"), Format::Passthrough);
    assert_eq!(classify(""), Format::Passthrough);
}

#[test]
fn parse_dispatches_on_extension() {
    assert_eq!(parsed("a/b/c.rs", "// hi\ncode"), vec!["hi".to_string()]);
    assert_eq!(parsed("a/b/c", "// hi\ncode"), vec!["// hi\ncode".to_string()]);
    assert_eq!(parsed("r.md", "# T\nbody"), vec!["body".to_string()]);
    assert_eq!(parsed("c.toml", "k=v"), vec!["k = v".to_string()]);
}

#[test]
fn per_format_parsers_replace_sentences() {
    let mut f = File::new("x".to_string(), "// a\n# b\nc=d".to_string());
    f.parse_rust_file();
    assert_eq!(f.sentences, vec!["a".to_string()]);
    f.parse_markdown_file();
    assert_eq!(f.sentences, vec!["// a".to_string(), "c=d".to_string()]);
    f.parse_toml_file();
    assert_eq!(
        f.sentences,
        vec!["// a".to_string(), "Comment: b".to_string(), "c = d".to_string()]
    );
}

#[test]
fn extract_by_format() {
    let text = "x = 1".to_string();
    assert_eq!(extract(Format::Config, &text), vec!["x = 1".to_string()]);
    assert_eq!(extract(Format::Passthrough, &text), vec![text.clone()]);
    assert_eq!(extract(Format::SourceComments, &text), Vec::<String>::new());
    assert_eq!(extract(Format::Markdown, &text), vec!["x = 1".to_string()]);
}
