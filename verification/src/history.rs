//! The lines that a reader has typed: kept in order while a session runs,
//! written out as a text of one line each when it ends, and read back when
//! the next one starts.

use crate::text::{chars_of, push_char};
use vstd::prelude::*;
use vstd::string::*;

verus! {

/// The views of the texts of `lines`, in order.
pub open spec fn texts(lines: Seq<String>) -> Seq<Seq<char>> {
    lines.map_values(|line: String| line@)
}

/// `line` without the carriage return at its end, if it has one.
pub open spec fn trim_cr(line: Seq<char>) -> Seq<char> {
    if line.len() > 0 && line.last() == '\r' {
        line.drop_last()
    } else {
        line
    }
}

/// What reading `text` up to its end leaves: the lines that a line feed has
/// closed, each without the carriage return before the line feed, and the
/// characters that follow the last line feed.
pub open spec fn scanned(text: Seq<char>) -> (Seq<Seq<char>>, Seq<char>)
    decreases text.len(),
{
    if text.len() == 0 {
        (Seq::empty(), Seq::empty())
    } else {
        let (closed, open) = scanned(text.drop_last());
        if text.last() == '\n' {
            (closed.push(trim_cr(open)), Seq::empty())
        } else {
            (closed, open.push(text.last()))
        }
    }
}

/// The lines of `text`: what stands between line feeds, and what follows
/// the last one if that is not empty.
pub open spec fn lines_of(text: Seq<char>) -> Seq<Seq<char>> {
    let (closed, open) = scanned(text);
    if open.len() > 0 {
        closed.push(open)
    } else {
        closed
    }
}

/// The text that holds `lines`, each followed by a line feed.
pub open spec fn joined(lines: Seq<Seq<char>>) -> Seq<char>
    decreases lines.len(),
{
    if lines.len() == 0 {
        Seq::empty()
    } else {
        joined(lines.drop_last()) + lines.last().push('\n')
    }
}

/// Whether `line` can be written as one line and read back: it holds no
/// line feed and does not end in a carriage return.
pub open spec fn storable(line: Seq<char>) -> bool {
    &&& forall|i: int| 0 <= i < line.len() ==> line[i] != '\n'
    &&& line.len() > 0 ==> line.last() != '\r'
}

/// The lines of a text.
pub fn split_lines(text: &str) -> (lines: Vec<String>)
    ensures
        texts(lines@) == lines_of(text@),
{
    let chars = chars_of(text);
    let mut lines: Vec<String> = Vec::new();
    let mut open = String::new();
    let mut last: Option<char> = None;
    let mut count: usize = 0;
    let mut i: usize = 0;
    assert(chars@.take(0) =~= Seq::<char>::empty());
    assert(texts(lines@) =~= Seq::<Seq<char>>::empty());
    while i < chars.len()
        invariant
            i <= chars.len(),
            chars@ == text@,
            scanned(chars@.take(i as int)) == (texts(lines@), open@),
            count == open@.len(),
            count <= i,
            match last {
                Some(c) => open@.len() > 0 && open@.last() == c,
                None => open@.len() == 0,
            },
        decreases chars.len() - i,
    {
        let c: char = chars[i];
        proof {
            assert(chars@.take(i + 1).drop_last() == chars@.take(i as int));
            assert(chars@.take(i + 1).last() == c);
        }
        if c == '\n' {
            let line = match last {
                Some('\r') => without_last(&open, count),
                _ => open,
            };
            proof {
                assert(texts(lines@.push(line)) =~= texts(lines@).push(line@));
            }
            lines.push(line);
            open = String::new();
            last = None;
            count = 0;
        } else {
            push_char(&mut open, c);
            last = Some(c);
            count = count + 1;
        }
        i = i + 1;
    }
    assert(chars@.take(i as int) == chars@);
    if count > 0 {
        proof {
            assert(texts(lines@.push(open)) =~= texts(lines@).push(open@));
        }
        lines.push(open);
    }
    lines
}

fn without_last(text: &String, count: usize) -> (shorter: String)
    requires
        count == text@.len(),
        count > 0,
    ensures
        shorter@ == text@.drop_last(),
{
    let chars = chars_of(text.as_str());
    let mut shorter = String::new();
    let mut i: usize = 0;
    while i + 1 < chars.len()
        invariant
            i < chars.len(),
            chars@ == text@,
            shorter@ == chars@.take(i as int),
        decreases chars.len() - i,
    {
        push_char(&mut shorter, chars[i]);
        assert(chars@.take(i + 1) == chars@.take(i as int).push(chars@[i as int]));
        i = i + 1;
    }
    assert(chars@.take(i as int) == chars@.drop_last());
    shorter
}

/// The text that holds `lines`, each followed by a line feed.
pub fn join_lines(lines: &Vec<String>) -> (text: String)
    ensures
        text@ == joined(texts(lines@)),
{
    let mut text = String::new();
    let mut i: usize = 0;
    assert(texts(lines@).take(0) =~= Seq::<Seq<char>>::empty());
    while i < lines.len()
        invariant
            i <= lines.len(),
            text@ == joined(texts(lines@).take(i as int)),
        decreases lines.len() - i,
    {
        proof {
            let upto = texts(lines@).take(i + 1);
            assert(upto.drop_last() == texts(lines@).take(i as int));
            assert(upto.last() == lines@[i as int]@);
        }
        text.append(lines[i].as_str());
        push_char(&mut text, '\n');
        i = i + 1;
    }
    assert(texts(lines@).take(i as int) == texts(lines@));
    text
}

/// Reading on through a line that holds no line feed only lengthens what
/// stands open.
pub proof fn lemma_scanned_line(text: Seq<char>, line: Seq<char>)
    requires
        forall|i: int| 0 <= i < line.len() ==> line[i] != '\n',
    ensures
        scanned(text + line) == (scanned(text).0, scanned(text).1 + line),
    decreases line.len(),
{
    if line.len() == 0 {
        assert(text + line == text);
        assert(scanned(text).1 + line == scanned(text).1);
    } else {
        let front = line.drop_last();
        lemma_scanned_line(text, front);
        assert((text + line).drop_last() == text + front);
        assert((text + line).last() == line.last());
        assert((scanned(text).1 + front).push(line.last()) == scanned(text).1 + line);
    }
}

/// Lines that can be stored are read back from their text as they were
/// written: `lines_of(joined(lines)) == lines`, and nothing stands open at
/// the end of the text.
pub proof fn law_lines_read_back(lines: Seq<Seq<char>>)
    requires
        forall|i: int| 0 <= i < lines.len() ==> storable(#[trigger] lines[i]),
    ensures
        scanned(joined(lines)) == (lines, Seq::<char>::empty()),
        lines_of(joined(lines)) == lines,
    decreases lines.len(),
{
    if lines.len() > 0 {
        let front = lines.drop_last();
        let line = lines.last();
        assert forall|i: int| 0 <= i < front.len() implies storable(#[trigger] front[i]) by {
            assert(front[i] == lines[i]);
        }
        law_lines_read_back(front);
        assert(storable(line));
        lemma_scanned_line(joined(front), line);
        let whole = joined(front) + line.push('\n');
        assert(whole.drop_last() == joined(front) + line);
        assert(whole.last() == '\n');
        assert(Seq::<char>::empty() + line == line);
        assert(front.push(line) == lines);
    }
}

} // verus!
