//! Picking the error lines out of a log.

use vstd::prelude::*;
use vstd::string::*;
use crate::text::{chars_of, names, string_of};

verus! {

/// The lines of `text`: the stretches between line feeds. A text with `n`
/// line feeds has `n + 1` lines, some of which may be empty.
pub open spec fn lines(text: Seq<char>) -> Seq<Seq<char>>
    decreases text.len(),
{
    if text.len() == 0 {
        seq![Seq::empty()]
    } else {
        let before = lines(text.drop_last());
        if text.last() == '\n' {
            before.push(Seq::empty())
        } else {
            before.drop_last().push(before.last().push(text.last()))
        }
    }
}

/// Whether `line` reports an error: it begins with the word `ERROR`.
pub open spec fn is_error_line(line: Seq<char>) -> bool {
    "ERROR"@.is_prefix_of(line)
}

/// The error lines of `text`, in the order they stand in it.
pub open spec fn error_lines(text: Seq<char>) -> Seq<Seq<char>> {
    lines(text).filter(|line: Seq<char>| is_error_line(line))
}

/// The lines of `parts` with a line feed between each two.
pub open spec fn joined(parts: Seq<Seq<char>>) -> Seq<char>
    decreases parts.len(),
{
    if parts.len() == 0 {
        Seq::empty()
    } else if parts.len() == 1 {
        parts[0]
    } else {
        joined(parts.drop_last()).push('\n') + parts.last()
    }
}

/// There is always a line, and joining the lines with line feeds gives the
/// text back; no line holds a line feed.
pub proof fn lemma_lines(text: Seq<char>)
    ensures
        lines(text).len() >= 1,
        joined(lines(text)) == text,
        forall|i: int, j: int|
            0 <= i < lines(text).len() && 0 <= j < lines(text)[i].len() ==> lines(text)[i][j]
                != '\n',
    decreases text.len(),
{
    if text.len() == 0 {
        assert(seq![Seq::<char>::empty()].drop_last() =~= Seq::<Seq<char>>::empty());
        assert(joined(seq![Seq::<char>::empty()]) =~= text);
    } else {
        let before = lines(text.drop_last());
        lemma_lines(text.drop_last());
        if text.last() == '\n' {
            let all = before.push(Seq::empty());
            assert(all.drop_last() =~= before);
            assert(joined(all) =~= text);
        } else {
            let all = before.drop_last().push(before.last().push(text.last()));
            assert(all.drop_last() =~= before.drop_last());
            if before.len() > 1 {
                let head = joined(before.drop_last()).push('\n');
                assert(joined(before) == head + before.last());
                assert(joined(all) == head + before.last().push(text.last()));
                assert(head + before.last().push(text.last()) =~= (head + before.last()).push(
                    text.last(),
                ));
            }
            assert(joined(all) =~= text);
        }
    }
}

fn starts_with_error(line: &Vec<char>) -> (yes: bool)
    ensures
        yes == is_error_line(line@),
{
    proof {
        reveal_strlit("ERROR");
    }
    let yes = line.len() >= 5 && line[0] == 'E' && line[1] == 'R' && line[2] == 'R' && line[3]
        == 'O' && line[4] == 'R';
    if yes {
        assert("ERROR"@ =~= line@.subrange(0, 5));
    } else if line.len() >= 5 {
        let ghost head = line@.subrange(0, 5);
        assert(head[0] == line@[0] && head[1] == line@[1] && head[2] == line@[2] && head[3]
            == line@[3] && head[4] == line@[4]);
    }
    yes
}

/// The lines of `text_to_parse` that begin with `ERROR`, in order, each as a
/// string of its own.
pub fn extract_error_logs(text_to_parse: &str) -> (found: Vec<String>)
    ensures
        names(found@) == error_lines(text_to_parse@),
{
    let chars = chars_of(text_to_parse);
    let ghost keep = |line: Seq<char>| is_error_line(line);
    let mut found: Vec<String> = Vec::new();
    let mut line: Vec<char> = Vec::new();
    let mut i: usize = 0;
    proof {
        reveal(Seq::filter);
        assert(chars@.take(0) =~= Seq::<char>::empty());
        assert(lines(chars@.take(0)).drop_last() =~= Seq::<Seq<char>>::empty());
        assert(names(found@) =~= lines(chars@.take(0)).drop_last().filter(keep));
    }
    while i < chars.len()
        invariant
            i <= chars@.len(),
            chars@ == text_to_parse@,
            keep == |line: Seq<char>| is_error_line(line),
            lines(chars@.take(i as int)).len() >= 1,
            line@ == lines(chars@.take(i as int)).last(),
            names(found@) == lines(chars@.take(i as int)).drop_last().filter(keep),
        decreases chars@.len() - i,
    {
        let ghost before = lines(chars@.take(i as int));
        let c = chars[i];
        proof {
            assert(chars@.take(i + 1).drop_last() =~= chars@.take(i as int));
            assert(chars@.take(i + 1).last() == c);
        }
        if c == '\n' {
            proof {
                reveal(Seq::filter);
                assert(before.push(Seq::empty()).drop_last() =~= before);
                assert(before.last() == line@);
            }
            if starts_with_error(&line) {
                let ghost earlier = names(found@);
                found.push(string_of(&line));
                assert(names(found@) =~= earlier.push(line@));
            }
            line = Vec::new();
        } else {
            line.push(c);
            assert(before.drop_last().push(before.last().push(c)).drop_last()
                =~= before.drop_last());
        }
        i += 1;
    }
    proof {
        reveal(Seq::filter);
        assert(chars@.take(i as int) =~= chars@);
        let all = lines(chars@);
        assert(all.last() == line@);
    }
    if starts_with_error(&line) {
        let ghost earlier = names(found@);
        found.push(string_of(&line));
        assert(names(found@) =~= earlier.push(line@));
    }
    found
}

} // verus!
