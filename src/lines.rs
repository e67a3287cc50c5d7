//! Splitting text into lines, and finding the longest line and the shortest
//! non-empty line. Lengths are counted in characters; on equal lengths the
//! line with the lower number wins.
use vstd::prelude::*;

use crate::frequency::char_views;
use crate::models::LineInfo;
use crate::text::string_of;

verus! {

/// A line without the carriage return that ends it, if any.
pub open spec fn strip_cr(t: Seq<char>) -> Seq<char> {
    if t.len() > 0 && t.last() == '\r' {
        t.drop_last()
    } else {
        t
    }
}

/// The lines finished so far and the line being read, after reading `s`.
pub open spec fn line_state(s: Seq<char>) -> (Seq<Seq<char>>, Seq<char>)
    decreases s.len(),
{
    if s.len() == 0 {
        (seq![], seq![])
    } else {
        let prev = line_state(s.drop_last());
        if s.last() == '\n' {
            (prev.0.push(strip_cr(prev.1)), seq![])
        } else {
            (prev.0, prev.1.push(s.last()))
        }
    }
}

/// The lines of `s`: the text between line feeds, without a carriage return
/// before the line feed; a final line feed starts no further line.
pub open spec fn lines_of(s: Seq<char>) -> Seq<Seq<char>> {
    let st = line_state(s);
    if st.1.len() > 0 {
        st.0.push(st.1)
    } else {
        st.0
    }
}

/// `(number, content)` is the longest of the lines `ls`, the first of equal
/// length, numbered from 1; `(0, "")` where there are no lines.
pub open spec fn is_longest(ls: Seq<Seq<char>>, number: int, content: Seq<char>) -> bool {
    if ls.len() == 0 {
        number == 0 && content.len() == 0
    } else {
        &&& 1 <= number <= ls.len()
        &&& content == ls[number - 1]
        &&& forall|j: int| 0 <= j < ls.len() ==> (#[trigger] ls[j]).len() <= content.len()
        &&& forall|j: int| 0 <= j < number - 1 ==> (#[trigger] ls[j]).len() < content.len()
    }
}

/// `(number, content)` is the shortest non-empty line of `ls`, the first of
/// equal length, numbered from 1; `(0, "")` where no line is non-empty.
pub open spec fn is_shortest(ls: Seq<Seq<char>>, number: int, content: Seq<char>) -> bool {
    if forall|j: int| 0 <= j < ls.len() ==> (#[trigger] ls[j]).len() == 0 {
        number == 0 && content.len() == 0
    } else {
        &&& 1 <= number <= ls.len()
        &&& content == ls[number - 1]
        &&& content.len() > 0
        &&& forall|j: int|
            0 <= j < ls.len() && (#[trigger] ls[j]).len() > 0 ==> content.len() <= ls[j].len()
        &&& forall|j: int|
            0 <= j < number - 1 && (#[trigger] ls[j]).len() > 0 ==> content.len() < ls[j].len()
    }
}

/// Splits a character sequence into its lines.
pub fn split_lines(chars: &Vec<char>) -> (r: Vec<Vec<char>>)
    ensures
        char_views(r@) == lines_of(chars@),
{
    let mut done: Vec<Vec<char>> = Vec::new();
    let mut cur: Vec<char> = Vec::new();
    let mut i: usize = 0;
    while i < chars.len()
        invariant
            i <= chars.len(),
            (char_views(done@), cur@) == line_state(chars@.take(i as int)),
        decreases chars.len() - i,
    {
        assert(chars@.take(i + 1).drop_last() == chars@.take(i as int));
        let c = chars[i];
        if c == '\n' {
            let ghost old_done = done@;
            if cur.len() > 0 && cur[cur.len() - 1] == '\r' {
                cur.pop();
            }
            let ghost line = cur@;
            done.push(cur);
            assert(char_views(done@) == char_views(old_done).push(line));
            cur = Vec::new();
        } else {
            cur.push(c);
        }
        i = i + 1;
    }
    assert(chars@.take(i as int) == chars@);
    if cur.len() > 0 {
        let ghost old_done = done@;
        let ghost line = cur@;
        done.push(cur);
        assert(char_views(done@) == char_views(old_done).push(line));
    }
    done
}

/// The longest line, the first of equal length; `(0, "")` where there is none.
pub fn longest_line(lines: &Vec<Vec<char>>) -> (r: LineInfo)
    ensures
        is_longest(char_views(lines@), r.line_number as int, r.content@),
{
    let ghost ls = char_views(lines@);
    if lines.len() == 0 {
        return LineInfo { line_number: 0, content: String::new() };
    }
    let mut best: usize = 0;
    let mut i: usize = 1;
    while i < lines.len()
        invariant
            ls == char_views(lines@),
            0 <= best < i <= lines.len(),
            forall|j: int| 0 <= j < i ==> (#[trigger] ls[j]).len() <= ls[best as int].len(),
            forall|j: int| 0 <= j < best ==> (#[trigger] ls[j]).len() < ls[best as int].len(),
        decreases lines.len() - i,
    {
        if lines[i].len() > lines[best].len() {
            best = i;
        }
        i = i + 1;
    }
    LineInfo { line_number: best + 1, content: string_of(&lines[best]) }
}

/// The shortest non-empty line, the first of equal length; `(0, "")` where
/// there is none.
pub fn shortest_line(lines: &Vec<Vec<char>>) -> (r: LineInfo)
    ensures
        is_shortest(char_views(lines@), r.line_number as int, r.content@),
{
    let ghost ls = char_views(lines@);
    let mut found = false;
    let mut best: usize = 0;
    let mut i: usize = 0;
    while i < lines.len()
        invariant
            ls == char_views(lines@),
            i <= lines.len(),
            !found ==> forall|j: int| 0 <= j < i ==> (#[trigger] ls[j]).len() == 0,
            found ==> best < i && ls[best as int].len() > 0,
            found ==> forall|j: int|
                0 <= j < i && (#[trigger] ls[j]).len() > 0 ==> ls[best as int].len() <= ls[j].len(),
            found ==> forall|j: int|
                0 <= j < best && (#[trigger] ls[j]).len() > 0 ==> ls[best as int].len() < ls[j].len(),
        decreases lines.len() - i,
    {
        let len = lines[i].len();
        if len > 0 && (!found || len < lines[best].len()) {
            best = i;
            found = true;
        }
        i = i + 1;
    }
    if !found {
        return LineInfo { line_number: 0, content: String::new() };
    }
    assert(ls[best as int].len() > 0);
    LineInfo { line_number: best + 1, content: string_of(&lines[best]) }
}

} // verus!
