//! File records and the choice of extractor by file extension.

use crate::extract::{
    config_entries, config_sentences, markdown_prose, markdown_sentences, source_comments,
    source_sentences,
};
use crate::text::{chars_of, copy_range, views};
use vstd::prelude::*;

verus! {

/// The extractor that a file's extension selects.
#[derive(Clone, Copy, Debug, PartialEq, Eq, Structural)]
pub enum Format {
    /// Comments and documentation of a source file (`rs`).
    SourceComments,
    /// Prose of a markdown file (`md`).
    Markdown,
    /// Entries of a structured-config file (`toml`).
    Config,
    /// Any other file: its whole contents as one sentence.
    Passthrough,
}

/// The position of the last `c` in `s`.
pub open spec fn last_index(s: Seq<char>, c: char) -> Option<int>
    decreases s.len(),
{
    if s.len() == 0 {
        None
    } else if s.last() == c {
        Some(s.len() - 1)
    } else {
        last_index(s.drop_last(), c)
    }
}

/// The final segment of a path: what follows its last `/`.
pub open spec fn final_segment(path: Seq<char>) -> Seq<char> {
    match last_index(path, '/') {
        Some(i) => path.skip(i + 1),
        None => path,
    }
}

/// The extension of a path: what follows the last `.` of its final segment;
/// none where that segment holds no `.`.
pub open spec fn extension(path: Seq<char>) -> Option<Seq<char>> {
    let seg = final_segment(path);
    match last_index(seg, '.') {
        Some(i) => Some(seg.skip(i + 1)),
        None => None,
    }
}

pub open spec fn ext_rs() -> Seq<char> {
    seq!['r', 's']
}

pub open spec fn ext_md() -> Seq<char> {
    seq!['m', 'd']
}

pub open spec fn ext_toml() -> Seq<char> {
    seq!['t', 'o', 'm', 'l']
}

/// The extractor for a file at `path`.
pub open spec fn format_of(path: Seq<char>) -> Format {
    match extension(path) {
        Some(e) => if e == ext_rs() {
            Format::SourceComments
        } else if e == ext_md() {
            Format::Markdown
        } else if e == ext_toml() {
            Format::Config
        } else {
            Format::Passthrough
        },
        None => Format::Passthrough,
    }
}

/// The sentences that `format` extracts from `contents`.
pub open spec fn sentences_of(format: Format, contents: Seq<char>) -> Seq<Seq<char>> {
    match format {
        Format::SourceComments => source_sentences(contents),
        Format::Markdown => markdown_sentences(contents),
        Format::Config => config_sentences(contents),
        Format::Passthrough => seq![contents],
    }
}

/// The position of the last `c` in `s`.
fn last_index_of(s: &Vec<char>, c: char) -> (r: Option<usize>)
    ensures
        match r {
            Some(i) => last_index(s@, c) == Some(i as int) && i < s@.len(),
            None => last_index(s@, c) is None,
        },
{
    let mut j = s.len();
    assert(s@.take(j as int) =~= s@);
    while j > 0
        invariant
            j <= s@.len(),
            last_index(s@, c) == last_index(s@.take(j as int), c),
        decreases j,
    {
        assert(s@.take(j as int).drop_last() =~= s@.take(j - 1));
        if s[j - 1] == c {
            return Some(j - 1);
        }
        j -= 1;
    }
    None
}

/// The extractor for a file at `path`, chosen by its extension.
pub fn classify(path: &str) -> (r: Format)
    ensures
        r == format_of(path@),
{
    let p = chars_of(path);
    let seg = match last_index_of(&p, '/') {
        Some(i) => copy_range(&p, i + 1, p.len()),
        None => p,
    };
    assert(seg@ == final_segment(path@));
    let n = seg.len();
    match last_index_of(&seg, '.') {
        Some(i) => {
            let e = copy_range(&seg, i + 1, n);
            assert(e@ == extension(path@)->0);
            if e.len() == 2 && e[0] == 'r' && e[1] == 's' {
                assert(e@ =~= ext_rs());
                Format::SourceComments
            } else if e.len() == 2 && e[0] == 'm' && e[1] == 'd' {
                assert(e@ =~= ext_md());
                Format::Markdown
            } else if e.len() == 4 && e[0] == 't' && e[1] == 'o' && e[2] == 'm' && e[3] == 'l' {
                assert(e@ =~= ext_toml());
                Format::Config
            } else {
                Format::Passthrough
            }
        },
        None => Format::Passthrough,
    }
}

/// The sentences that `format` extracts from `contents`.
pub fn extract(format: Format, contents: &String) -> (r: Vec<String>)
    ensures
        views(r@) == sentences_of(format, contents@),
{
    match format {
        Format::SourceComments => source_comments(contents.as_str()),
        Format::Markdown => markdown_prose(contents.as_str()),
        Format::Config => config_entries(contents.as_str()),
        Format::Passthrough => {
            let mut r: Vec<String> = Vec::new();
            r.push(contents.clone());
            assert(views(r@) =~= seq![contents@]);
            r
        },
    }
}

/// A file of the repository: its path relative to the root, its raw
/// contents, and the sentences extracted from them.
pub struct File {
    pub path: String,
    pub contents: String,
    pub sentences: Vec<String>,
}

impl File {
    /// A record of a file that has not been parsed yet: no sentences.
    pub fn new(path: String, contents: String) -> (r: Self)
        ensures
            r.path == path,
            r.contents == contents,
            r.sentences@.len() == 0,
    {
        File { path, contents, sentences: Vec::new() }
    }

    /// Fills `sentences` with what the extractor that the path's extension
    /// selects finds in `contents`.
    pub fn parse(&mut self)
        ensures
            final(self).path == old(self).path,
            final(self).contents == old(self).contents,
            views(final(self).sentences@) == sentences_of(
                format_of(old(self).path@),
                old(self).contents@,
            ),
    {
        match classify(self.path.as_str()) {
            Format::SourceComments => self.parse_rust_file(),
            Format::Markdown => self.parse_markdown_file(),
            Format::Config => self.parse_toml_file(),
            Format::Passthrough => {
                self.sentences = extract(Format::Passthrough, &self.contents);
            },
        }
    }

    /// Fills `sentences` with the comments and documentation of `contents`.
    pub fn parse_rust_file(&mut self)
        ensures
            final(self).path == old(self).path,
            final(self).contents == old(self).contents,
            views(final(self).sentences@) == source_sentences(old(self).contents@),
    {
        self.sentences = source_comments(self.contents.as_str());
    }

    /// Fills `sentences` with the prose of `contents`, read as markdown.
    pub fn parse_markdown_file(&mut self)
        ensures
            final(self).path == old(self).path,
            final(self).contents == old(self).contents,
            views(final(self).sentences@) == markdown_sentences(old(self).contents@),
    {
        self.sentences = markdown_prose(self.contents.as_str());
    }

    /// Fills `sentences` with the entries of `contents`, read as structured
    /// config.
    pub fn parse_toml_file(&mut self)
        ensures
            final(self).path == old(self).path,
            final(self).contents == old(self).contents,
            views(final(self).sentences@) == config_sentences(old(self).contents@),
    {
        self.sentences = config_entries(self.contents.as_str());
    }
}

/// Extraction is deterministic: two records with the same path and the same
/// contents get the same sentences from `parse`.
pub proof fn lemma_parse_deterministic(a: File, b: File)
    requires
        a.path@ == b.path@,
        a.contents@ == b.contents@,
    ensures
        sentences_of(format_of(a.path@), a.contents@) == sentences_of(
            format_of(b.path@),
            b.contents@,
        ),
{
}

/// A file whose extension is none of `rs`, `md` and `toml`, or that has no
/// extension, yields exactly one sentence: its contents, unchanged.
pub proof fn lemma_passthrough(path: Seq<char>, contents: Seq<char>)
    requires
        extension(path) != Some(ext_rs()),
        extension(path) != Some(ext_md()),
        extension(path) != Some(ext_toml()),
    ensures
        format_of(path) == Format::Passthrough,
        sentences_of(format_of(path), contents) == seq![contents],
{
}

} // verus!
