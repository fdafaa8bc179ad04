//! The sentence extractors: one line-oriented state machine per file format,
//! each stated as a step function folded over the trimmed lines.

use crate::text::{
    chars_of, copy_range, find, find_in, lines, matches_here, push_chars, split_lines,
    starts_with, string_of, trim, trimmed, views, char_views,
};
use vstd::prelude::*;

verus! {

pub open spec fn doc_marker() -> Seq<char> {
    seq!['/', '/', '/']
}

pub open spec fn inner_doc_marker() -> Seq<char> {
    seq!['/', '/', '!']
}

pub open spec fn line_marker() -> Seq<char> {
    seq!['/', '/']
}

pub open spec fn block_open() -> Seq<char> {
    seq!['/', '*']
}

pub open spec fn block_close() -> Seq<char> {
    seq!['*', '/']
}

pub open spec fn fence() -> Seq<char> {
    seq!['`', '`', '`']
}

/// What a block comment line emits, given the text after its opener (or the
/// whole line inside a block): the text before `*/` if the block closes
/// there, else all of it. The state is whether the block is still open.
pub open spec fn block_part(t: Seq<char>) -> (bool, Seq<Seq<char>>) {
    match find(t, block_close()) {
        Some(e) => (false, seq![t.take(e)]),
        None => (true, seq![t]),
    }
}

/// One step of the source-comment extractor on a trimmed line `t`: the next
/// state (inside a block comment or not) and the sentences emitted.
pub open spec fn source_step(in_block: bool, t: Seq<char>) -> (bool, Seq<Seq<char>>) {
    if in_block {
        block_part(t)
    } else {
        match find(t, doc_marker()) {
            Some(p) => (false, seq![trim(t.skip(p + 3))]),
            None => match find(t, inner_doc_marker()) {
                Some(p) => (false, seq![trim(t.skip(p + 3))]),
                None => match find(t, line_marker()) {
                    Some(p) => (false, seq![trim(t.skip(p + 2))]),
                    None => match find(t, block_open()) {
                        Some(p) => block_part(t.skip(p + 2)),
                        None => (false, seq![]),
                    },
                },
            },
        }
    }
}

/// The source-comment extractor on the lines `ls`, from state `in_block`.
pub open spec fn source_sentences_from(ls: Seq<Seq<char>>, in_block: bool) -> Seq<Seq<char>>
    decreases ls.len(),
{
    if ls.len() == 0 {
        seq![]
    } else {
        let (next, out) = source_step(in_block, trim(ls[0]));
        out + source_sentences_from(ls.drop_first(), next)
    }
}

/// The sentences of a source file: its comments and documentation.
pub open spec fn source_sentences(s: Seq<char>) -> Seq<Seq<char>> {
    source_sentences_from(lines(s), false)
}

/// One step of the markdown extractor on a trimmed line `t`: the next state
/// (inside a code fence or not) and the sentences emitted.
pub open spec fn markdown_step(in_code: bool, t: Seq<char>) -> (bool, Seq<Seq<char>>) {
    if starts_with(t, fence()) {
        (!in_code, seq![])
    } else if !in_code && t.len() > 0 && t[0] != '#' {
        (in_code, seq![t])
    } else {
        (in_code, seq![])
    }
}

/// The markdown extractor on the lines `ls`, from state `in_code`.
pub open spec fn markdown_sentences_from(ls: Seq<Seq<char>>, in_code: bool) -> Seq<Seq<char>>
    decreases ls.len(),
{
    if ls.len() == 0 {
        seq![]
    } else {
        let (next, out) = markdown_step(in_code, trim(ls[0]));
        out + markdown_sentences_from(ls.drop_first(), next)
    }
}

/// The sentences of a markdown file: its prose lines outside code fences.
pub open spec fn markdown_sentences(s: Seq<char>) -> Seq<Seq<char>> {
    markdown_sentences_from(lines(s), false)
}

/// What the structured-config extractor emits for a trimmed line `t`.
pub open spec fn config_line(t: Seq<char>) -> Seq<Seq<char>> {
    if t.len() == 0 {
        seq![]
    } else if t[0] == '#' {
        seq!["Comment: "@ + trim(t.skip(1))]
    } else if t[0] == '[' && t.last() == ']' {
        seq!["Table: "@ + trim(t.subrange(1, t.len() - 1))]
    } else {
        match find(t, seq!['=']) {
            Some(i) => seq![trim(t.take(i)) + " = "@ + trim(t.skip(i + 1))],
            None => seq![t],
        }
    }
}

/// The structured-config extractor on the lines `ls`.
pub open spec fn config_sentences_from(ls: Seq<Seq<char>>) -> Seq<Seq<char>>
    decreases ls.len(),
{
    if ls.len() == 0 {
        seq![]
    } else {
        config_line(trim(ls[0])) + config_sentences_from(ls.drop_first())
    }
}

/// The sentences of a structured-config file: one normalised line for each
/// line that is not blank.
pub open spec fn config_sentences(s: Seq<char>) -> Seq<Seq<char>> {
    config_sentences_from(lines(s))
}

/// Appends `v@` as one sentence.
fn emit(out: &mut Vec<String>, v: &Vec<char>)
    ensures
        views(final(out)@) == views(old(out)@) + seq![v@],
{
    let s = string_of(v);
    out.push(s);
    assert(views(out@) =~= views(old(out)@) + seq![v@]);
}

/// Emits what `block_part(t@)` emits and returns its state.
fn emit_block_part(t: &Vec<char>, out: &mut Vec<String>) -> (in_block: bool)
    ensures
        (in_block, views(final(out)@)) == ({
            let (b, o) = block_part(t@);
            (b, views(old(out)@) + o)
        }),
{
    let close: &[char] = &['*', '/'];
    assert(close@ =~= block_close());
    match find_in(t, close) {
        Some(e) => {
            let c = copy_range(t, 0, e);
            emit(out, &c);
            false
        },
        None => {
            emit(out, t);
            true
        },
    }
}

/// One step of the source-comment extractor on the trimmed line `t`: emits
/// what `source_step` emits and returns its next state.
fn source_line(t: &Vec<char>, in_block: bool, out: &mut Vec<String>) -> (next: bool)
    ensures
        next == source_step(in_block, t@).0,
        views(final(out)@) == views(old(out)@) + source_step(in_block, t@).1,
{
    if in_block {
        return emit_block_part(t, out);
    }
    let n = t.len();
    let doc: &[char] = &['/', '/', '/'];
    let inner: &[char] = &['/', '/', '!'];
    let line: &[char] = &['/', '/'];
    let open: &[char] = &['/', '*'];
    assert(doc@ =~= doc_marker());
    assert(inner@ =~= inner_doc_marker());
    assert(line@ =~= line_marker());
    assert(open@ =~= block_open());
    if let Some(p) = find_in(t, doc) {
        let c = trimmed(t, p + 3, n);
        emit(out, &c);
        return false;
    }
    if let Some(p) = find_in(t, inner) {
        let c = trimmed(t, p + 3, n);
        emit(out, &c);
        return false;
    }
    if let Some(p) = find_in(t, line) {
        let c = trimmed(t, p + 2, n);
        emit(out, &c);
        return false;
    }
    if let Some(p) = find_in(t, open) {
        let rest = copy_range(t, p + 2, n);
        assert(rest@ =~= t@.skip(p + 2));
        return emit_block_part(&rest, out);
    }
    assert(views(out@) =~= views(old(out)@) + seq![]);
    false
}

/// The comments and documentation of a source file, one sentence for each
/// comment line.
pub fn source_comments(contents: &str) -> (r: Vec<String>)
    ensures
        views(r@) == source_sentences(contents@),
{
    let cs = chars_of(contents);
    let ls = split_lines(&cs);
    let mut out: Vec<String> = Vec::new();
    let mut in_block = false;
    let mut i: usize = 0;
    assert(char_views(ls@).skip(0) =~= char_views(ls@));
    assert(views(out@) + source_sentences(contents@) =~= source_sentences(contents@));
    while i < ls.len()
        invariant
            i <= ls@.len(),
            char_views(ls@) == lines(contents@),
            views(out@) + source_sentences_from(char_views(ls@).skip(i as int), in_block)
                == source_sentences(contents@),
        decreases ls@.len() - i,
    {
        let t = trimmed(&ls[i], 0, ls[i].len());
        let ghost rest = char_views(ls@).skip(i as int);
        let ghost before = views(out@);
        let ghost state = in_block;
        proof {
            assert(rest.drop_first() =~= char_views(ls@).skip(i + 1));
            assert(ls@[i as int]@.subrange(0, ls@[i as int]@.len() as int) =~= rest[0]);
        }
        in_block = source_line(&t, in_block, &mut out);
        proof {
            let o = source_step(state, t@).1;
            let after = source_sentences_from(rest.drop_first(), in_block);
            assert(before + o + after =~= before + (o + after));
        }
        i += 1;
    }
    assert(views(out@) + source_sentences_from(char_views(ls@).skip(i as int), in_block)
        =~= views(out@));
    out
}

/// One step of the markdown extractor on the trimmed line `t`: emits what
/// `markdown_step` emits and returns its next state.
fn markdown_line(t: &Vec<char>, in_code: bool, out: &mut Vec<String>) -> (next: bool)
    ensures
        next == markdown_step(in_code, t@).0,
        views(final(out)@) == views(old(out)@) + markdown_step(in_code, t@).1,
{
    let ticks: &[char] = &['`', '`', '`'];
    assert(ticks@ =~= fence());
    if matches_here(t, ticks, 0) {
        assert(views(out@) =~= views(old(out)@) + seq![]);
        return !in_code;
    }
    if !in_code && t.len() > 0 && t[0] != '#' {
        emit(out, t);
    } else {
        assert(views(out@) =~= views(old(out)@) + seq![]);
    }
    in_code
}

/// The prose of a markdown file: each line outside code fences that is
/// neither blank nor a heading, trimmed.
pub fn markdown_prose(contents: &str) -> (r: Vec<String>)
    ensures
        views(r@) == markdown_sentences(contents@),
{
    let cs = chars_of(contents);
    let ls = split_lines(&cs);
    let mut out: Vec<String> = Vec::new();
    let mut in_code = false;
    let mut i: usize = 0;
    assert(char_views(ls@).skip(0) =~= char_views(ls@));
    assert(views(out@) + markdown_sentences(contents@) =~= markdown_sentences(contents@));
    while i < ls.len()
        invariant
            i <= ls@.len(),
            char_views(ls@) == lines(contents@),
            views(out@) + markdown_sentences_from(char_views(ls@).skip(i as int), in_code)
                == markdown_sentences(contents@),
        decreases ls@.len() - i,
    {
        let t = trimmed(&ls[i], 0, ls[i].len());
        let ghost rest = char_views(ls@).skip(i as int);
        let ghost before = views(out@);
        let ghost state = in_code;
        proof {
            assert(rest.drop_first() =~= char_views(ls@).skip(i + 1));
            assert(ls@[i as int]@.subrange(0, ls@[i as int]@.len() as int) =~= rest[0]);
        }
        in_code = markdown_line(&t, in_code, &mut out);
        proof {
            let o = markdown_step(state, t@).1;
            let after = markdown_sentences_from(rest.drop_first(), in_code);
            assert(before + o + after =~= before + (o + after));
        }
        i += 1;
    }
    assert(views(out@) + markdown_sentences_from(char_views(ls@).skip(i as int), in_code)
        =~= views(out@));
    out
}

/// Emits what `config_line` emits for the trimmed line `t`.
fn config_line_emit(t: &Vec<char>, out: &mut Vec<String>)
    ensures
        views(final(out)@) == views(old(out)@) + config_line(t@),
{
    let n = t.len();
    if n == 0 {
        assert(views(out@) =~= views(old(out)@) + seq![]);
        return ;
    }
    if t[0] == '#' {
        let text = trimmed(t, 1, n);
        let mut s = "Comment: ".to_owned();
        push_chars(&mut s, &text);
        assert(t@.skip(1) =~= t@.subrange(1, n as int));
        out.push(s);
        assert(views(out@) =~= views(old(out)@) + config_line(t@));
        return ;
    }
    if t[0] == '[' && t[n - 1] == ']' {
        let name = trimmed(t, 1, n - 1);
        let mut s = "Table: ".to_owned();
        push_chars(&mut s, &name);
        out.push(s);
        assert(views(out@) =~= views(old(out)@) + config_line(t@));
        return ;
    }
    let eq: &[char] = &['='];
    assert(eq@ =~= seq!['=']);
    match find_in(t, eq) {
        Some(i) => {
            let key = trimmed(t, 0, i);
            let value = trimmed(t, i + 1, n);
            let mut s = string_of(&key);
            push_chars(&mut s, &chars_of(" = "));
            push_chars(&mut s, &value);
            assert(t@.take(i as int) =~= t@.subrange(0, i as int));
            assert(t@.skip(i + 1) =~= t@.subrange(i + 1, n as int));
            out.push(s);
            assert(views(out@) =~= views(old(out)@) + config_line(t@));
        },
        None => {
            emit(out, t);
        },
    }
}

/// The entries of a structured-config file, one normalised sentence for
/// each line that is not blank.
pub fn config_entries(contents: &str) -> (r: Vec<String>)
    ensures
        views(r@) == config_sentences(contents@),
{
    let cs = chars_of(contents);
    let ls = split_lines(&cs);
    let mut out: Vec<String> = Vec::new();
    let mut i: usize = 0;
    assert(char_views(ls@).skip(0) =~= char_views(ls@));
    assert(views(out@) + config_sentences(contents@) =~= config_sentences(contents@));
    while i < ls.len()
        invariant
            i <= ls@.len(),
            char_views(ls@) == lines(contents@),
            views(out@) + config_sentences_from(char_views(ls@).skip(i as int))
                == config_sentences(contents@),
        decreases ls@.len() - i,
    {
        let t = trimmed(&ls[i], 0, ls[i].len());
        let ghost rest = char_views(ls@).skip(i as int);
        let ghost before = views(out@);
        proof {
            assert(rest.drop_first() =~= char_views(ls@).skip(i + 1));
            assert(ls@[i as int]@.subrange(0, ls@[i as int]@.len() as int) =~= rest[0]);
        }
        config_line_emit(&t, &mut out);
        proof {
            let o = config_line(t@);
            let after = config_sentences_from(rest.drop_first());
            assert(before + o + after =~= before + (o + after));
        }
        i += 1;
    }
    assert(views(out@) + config_sentences_from(char_views(ls@).skip(i as int)) =~= views(out@));
    out
}

/// Outside a block comment, a line holding `///` emits the trimmed text after
/// its first `///`, whatever block-comment markers that text holds, and
/// leaves the state outside a block comment.
pub proof fn lemma_doc_comment_first(t: Seq<char>)
    requires
        find(t, doc_marker()) is Some,
    ensures
        source_step(false, t) == (false, seq![trim(t.skip(find(t, doc_marker())->0 + 3))]),
{
}

/// In prose, a line that is blank or a heading after trimming emits nothing;
/// any other line that does not open a fence emits itself, trimmed.
pub proof fn lemma_markdown_prose_line(line: Seq<char>)
    ensures
        !starts_with(trim(line), fence()) ==> markdown_step(false, trim(line)) == (
        false,
        if trim(line).len() == 0 || trim(line)[0] == '#' {
            Seq::<Seq<char>>::empty()
        } else {
            seq![trim(line)]
        },
    ),
{
}

/// Inside a code fence every line but a fence line emits nothing.
pub proof fn lemma_markdown_code_silent(line: Seq<char>)
    ensures
        markdown_step(true, trim(line)).1 == Seq::<Seq<char>>::empty(),
{
}

/// A non-blank config line that is neither a comment, nor a table header,
/// nor holds `=`, is emitted as it stands after trimming.
pub proof fn lemma_config_verbatim(line: Seq<char>)
    requires
        trim(line).len() > 0,
        trim(line)[0] != '#',
        !(trim(line)[0] == '[' && trim(line).last() == ']'),
        find(trim(line), seq!['=']) is None,
    ensures
        config_line(trim(line)) == seq![trim(line)],
{
}

} // verus!
