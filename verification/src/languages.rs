//! Picking a name out of a list of language names.

use vstd::prelude::*;
use vstd::string::*;
use crate::text::names;

verus! {

/// Whether `at` is the first position of `list` that holds `current`.
pub open spec fn is_first_match(list: Seq<Seq<char>>, current: Seq<char>, at: int) -> bool {
    &&& 0 <= at < list.len()
    &&& list[at] == current
    &&& forall|before: int| 0 <= before < at ==> list[before] != current
}

/// The position of the name that follows the first occurrence of `current`
/// in `list`; the last position where `current` does not occur or nothing
/// follows it.
pub open spec fn next_position(list: Seq<Seq<char>>, current: Seq<char>) -> int {
    if exists|at: int| is_first_match(list, current, at) && at + 1 < list.len() {
        (choose|at: int| is_first_match(list, current, at) && at + 1 < list.len()) + 1
    } else {
        list.len() - 1
    }
}

/// Any position that is a first match, with a successor, fixes the result of
/// `next_position`.
pub proof fn lemma_next_position(list: Seq<Seq<char>>, current: Seq<char>, at: int)
    requires
        is_first_match(list, current, at),
    ensures
        at + 1 < list.len() ==> next_position(list, current) == at + 1,
        at + 1 == list.len() ==> next_position(list, current) == list.len() - 1,
{
    if at + 1 < list.len() {
        let chosen = choose|c: int| is_first_match(list, current, c) && c + 1 < list.len();
        assert(is_first_match(list, current, chosen));
        if chosen < at {
            assert(list[chosen] != current);
        }
        if at < chosen {
            assert(list[at] != current);
        }
    } else {
        assert forall|c: int| is_first_match(list, current, c) implies !(c + 1 < list.len()) by {
            if c < at {
                assert(list[c] != current);
            }
        }
    }
}

fn next_index(languages: &[String], current: &str) -> (index: usize)
    requires
        languages@.len() > 0,
    ensures
        index == next_position(names(languages@), current@),
        index < languages@.len(),
{
    let wanted = current.to_owned();
    let ghost list = names(languages@);
    let mut i: usize = 0;
    while i < languages.len()
        invariant
            i <= languages@.len(),
            list == names(languages@),
            wanted@ == current@,
            forall|before: int| 0 <= before < i ==> list[before] != current@,
        decreases languages@.len() - i,
    {
        if languages[i] == wanted {
            assert(is_first_match(list, current@, i as int));
            proof {
                lemma_next_position(list, current@, i as int);
            }
            if i + 1 < languages.len() {
                return i + 1;
            } else {
                return languages.len() - 1;
            }
        }
        i += 1;
    }
    assert(!exists|at: int| is_first_match(list, current@, at) && at + 1 < list.len());
    languages.len() - 1
}

/// The name that follows the first occurrence of `current` in `languages`,
/// or the last name where there is none; as a string of its own.
pub fn next_language_string_version(languages: &[String], current: &str) -> (next: String)
    requires
        languages@.len() > 0,
    ensures
        next@ == names(languages@)[next_position(names(languages@), current@)],
{
    let index = next_index(languages, current);
    languages[index].clone()
}

/// The name that follows the first occurrence of `current` in `languages`,
/// or the last name where there is none.
pub fn next_language<'a>(languages: &'a [String], current: &str) -> (next: &'a str)
    requires
        languages@.len() > 0,
    ensures
        next@ == names(languages@)[next_position(names(languages@), current@)],
{
    let index = next_index(languages, current);
    languages[index].as_str()
}

/// The last name of `languages`.
pub fn last_language(languages: &[String]) -> (last: &str)
    requires
        languages@.len() > 0,
    ensures
        last@ == languages@.last()@,
{
    languages[languages.len() - 1].as_str()
}

/// The name that takes more bytes (`len` counts bytes, not characters), and
/// the first of the two where they take the same.
pub fn longest_language_name<'a>(name1: &'a str, name2: &'a str) -> (longest: &'a str)
    ensures
        longest == if name1.len() >= name2.len() {
            name1
        } else {
            name2
        },
{
    if name1.len() >= name2.len() {
        name1
    } else {
        name2
    }
}

} // verus!
