//! Reshaping a list of strings: trimming, upper-casing, moving, splitting
//! into letters, and searching.

use vstd::prelude::*;
use vstd::string::*;
use crate::text::{chars_of, names, push_char, string_of};

verus! {

/// `c` in upper case where it is one of the letters `a` to `z`, and `c`
/// itself where it is not.
pub open spec fn ascii_upper(c: char) -> char {
    if 'a' <= c <= 'z' {
        ((c as u8) - 32) as char
    } else {
        c
    }
}

/// `text` with each of its letters `a` to `z` in upper case.
pub open spec fn ascii_uppercase(text: Seq<char>) -> Seq<char> {
    Seq::new(text.len(), |i: int| ascii_upper(text[i]))
}

/// `text` in upper case by the rules of Unicode, as the standard library's
/// `str::to_uppercase` gives it.
pub uninterp spec fn uppercase(text: Seq<char>) -> Seq<char>;

/// The upper-case form of `text`.
///
/// Calls `str::to_uppercase`. What that returns is fixed by Unicode's case
/// tables and depends on the characters alone, so the contract only gives
/// the result its name.
#[verifier::external_body]
fn uppercase_of(text: &str) -> (upper: String)
    ensures
        upper@ == uppercase(text@),
{
    text.to_uppercase()
}

fn ascii_upper_char(c: char) -> (upper: char)
    ensures
        upper == ascii_upper(c),
{
    if 'a' <= c && c <= 'z' {
        ((c as u8) - 32) as char
    } else {
        c
    }
}

/// Each string of `data` with its letters `a` to `z` in upper case.
pub fn to_uppercase_first_try(data: &[String]) -> (output: Vec<String>)
    ensures
        output@.len() == data@.len(),
        forall|i: int| 0 <= i < data@.len() ==> #[trigger] output@[i]@ == ascii_uppercase(data@[i]@),
{
    let mut output: Vec<String> = Vec::new();
    let mut i: usize = 0;
    while i < data.len()
        invariant
            i <= data@.len(),
            output@.len() == i,
            forall|k: int| 0 <= k < i ==> #[trigger] output@[k]@ == ascii_uppercase(data@[k]@),
        decreases data@.len() - i,
    {
        let chars = chars_of(data[i].as_str());
        let mut upper = String::new();
        let mut j: usize = 0;
        while j < chars.len()
            invariant
                j <= chars@.len(),
                upper@ == ascii_uppercase(chars@).take(j as int),
            decreases chars@.len() - j,
        {
            push_char(&mut upper, ascii_upper_char(chars[j]));
            assert(ascii_uppercase(chars@).take(j + 1) =~= ascii_uppercase(chars@).take(
                j as int,
            ).push(ascii_upper(chars@[j as int])));
            j += 1;
        }
        assert(ascii_uppercase(chars@).take(j as int) =~= ascii_uppercase(chars@));
        output.push(upper);
        i += 1;
    }
    output
}

/// Each string of `data` in upper case.
pub fn to_uppercase(data: &[String]) -> (output: Vec<String>)
    ensures
        output@.len() == data@.len(),
        forall|i: int| 0 <= i < data@.len() ==> #[trigger] output@[i]@ == uppercase(data@[i]@),
{
    let mut output: Vec<String> = Vec::new();
    let mut i: usize = 0;
    while i < data.len()
        invariant
            i <= data@.len(),
            output@.len() == i,
            forall|k: int| 0 <= k < i ==> #[trigger] output@[k]@ == uppercase(data@[k]@),
        decreases data@.len() - i,
    {
        output.push(uppercase_of(data[i].as_str()));
        i += 1;
    }
    output
}

/// Hands `data` on as it is.
pub fn move_elements_first_try(data: Vec<String>) -> (moved: Vec<String>)
    ensures
        moved@ == data@,
{
    data
}

/// Moves the strings of `vector_from` to the end of `vector_to`, in order.
pub fn move_elements(vector_from: Vec<String>, vector_to: &mut Vec<String>)
    ensures
        final(vector_to)@ == old(vector_to)@ + vector_from@,
{
    let mut from = vector_from;
    vector_to.append(&mut from);
}

/// The letters of `text`, each as a text of one character.
pub open spec fn letters(text: Seq<char>) -> Seq<Seq<char>> {
    Seq::new(text.len(), |i: int| seq![text[i]])
}

fn letters_of(text: &str) -> (split: Vec<String>)
    ensures
        names(split@) == letters(text@),
{
    let chars = chars_of(text);
    let mut split: Vec<String> = Vec::new();
    let mut j: usize = 0;
    while j < chars.len()
        invariant
            j <= chars@.len(),
            chars@ == text@,
            names(split@) == letters(text@).take(j as int),
        decreases chars@.len() - j,
    {
        let mut letter = String::new();
        push_char(&mut letter, chars[j]);
        let ghost earlier = names(split@);
        split.push(letter);
        assert(names(split@) =~= earlier.push(seq![chars@[j as int]]));
        assert(letters(text@).take(j + 1) =~= letters(text@).take(j as int).push(
            seq![chars@[j as int]],
        ));
        j += 1;
    }
    assert(letters(text@).take(j as int) =~= letters(text@));
    split
}

/// For each string of `strings`, the list of its letters.
pub fn explode_first_try(strings: &[String]) -> (vec_new: Vec<Vec<String>>)
    ensures
        vec_new@.len() == strings@.len(),
        forall|i: int|
            0 <= i < strings@.len() ==> names(#[trigger] vec_new@[i]@) == letters(
                strings@[i]@,
            ),
{
    let mut vec_new: Vec<Vec<String>> = Vec::new();
    let mut i: usize = 0;
    while i < strings.len()
        invariant
            i <= strings@.len(),
            vec_new@.len() == i,
            forall|k: int|
                0 <= k < i ==> names(#[trigger] vec_new@[k]@) == letters(strings@[k]@),
        decreases strings@.len() - i,
    {
        vec_new.push(letters_of(strings[i].as_str()));
        i += 1;
    }
    vec_new
}

/// For each string of `data`, the list of its letters.
pub fn explode(data: &[String]) -> (exploded: Vec<Vec<String>>)
    ensures
        exploded@.len() == data@.len(),
        forall|i: int|
            0 <= i < data@.len() ==> names(#[trigger] exploded@[i]@) == letters(data@[i]@),
{
    explode_first_try(data)
}

/// Whether `pattern` stands in `text` at position `at`.
pub open spec fn occurs_at(text: Seq<char>, pattern: Seq<char>, at: int) -> bool {
    0 <= at && at + pattern.len() <= text.len() && text.subrange(at, at + pattern.len())
        == pattern
}

/// Whether `pattern` stands somewhere in `text`. The empty pattern stands in
/// every text.
pub open spec fn has_substring(text: Seq<char>, pattern: Seq<char>) -> bool {
    exists|at: int| occurs_at(text, pattern, at)
}

fn matches_at(text: &Vec<char>, pattern: &Vec<char>, at: usize) -> (yes: bool)
    requires
        at + pattern@.len() <= text@.len(),
    ensures
        yes == occurs_at(text@, pattern@, at as int),
{
    let length = text.len();
    let mut j: usize = 0;
    while j < pattern.len()
        invariant
            j <= pattern@.len(),
            at + pattern@.len() <= text@.len() == length,
            forall|k: int| 0 <= k < j ==> text@[at + k] == pattern@[k],
        decreases pattern@.len() - j,
    {
        if text[at + j] != pattern[j] {
            assert(text@.subrange(at as int, at + pattern@.len())[j as int] != pattern@[j as int]);
            return false;
        }
        j += 1;
    }
    assert(text@.subrange(at as int, at + pattern@.len()) =~= pattern@);
    true
}

fn contains_text(text: &str, pattern: &Vec<char>) -> (yes: bool)
    ensures
        yes == has_substring(text@, pattern@),
{
    let chars = chars_of(text);
    if pattern.len() > chars.len() {
        return false;
    }
    let last = chars.len() - pattern.len();
    let mut at: usize = 0;
    loop
        invariant
            at <= last,
            last == chars@.len() - pattern@.len(),
            chars@ == text@,
            forall|k: int| 0 <= k < at ==> !occurs_at(text@, pattern@, k),
        decreases last - at,
    {
        if matches_at(&chars, pattern, at) {
            return true;
        }
        if at == last {
            return false;
        }
        at += 1;
    }
}

/// Whether `at` is the first position of `list` whose text holds `pattern`.
pub open spec fn is_first_holder(list: Seq<Seq<char>>, pattern: Seq<char>, at: int) -> bool {
    &&& 0 <= at < list.len()
    &&& has_substring(list[at], pattern)
    &&& forall|before: int| 0 <= before < at ==> !has_substring(list[before], pattern)
}

/// The first string of `data` that holds `findstr`, or `fallbackstr` where
/// none does.
pub fn find_color_or(data: &[String], findstr: &str, fallbackstr: &str) -> (found: String)
    ensures
        forall|at: int|
            is_first_holder(names(data@), findstr@, at) ==> found@ == names(data@)[at],
        (forall|at: int| 0 <= at < data@.len() ==> !has_substring(names(data@)[at], findstr@))
            ==> found@ == fallbackstr@,
{
    let pattern = chars_of(findstr);
    let mut i: usize = 0;
    while i < data.len()
        invariant
            i <= data@.len(),
            pattern@ == findstr@,
            forall|k: int| 0 <= k < i ==> !has_substring(names(data@)[k], findstr@),
        decreases data@.len() - i,
    {
        if contains_text(data[i].as_str(), &pattern) {
            assert(is_first_holder(names(data@), findstr@, i as int));
            assert forall|at: int| is_first_holder(names(data@), findstr@, at) implies at == i by {
                if at < i {
                    assert(!has_substring(names(data@)[at], findstr@));
                }
                if at > i {
                    assert(has_substring(names(data@)[i as int], findstr@));
                }
            }
            return data[i].clone();
        }
        i += 1;
    }
    String::from_str(fallbackstr)
}

/// The first character of each string of `data`, where it has one.
pub fn first_letters(data: &[String]) -> (firsts: Vec<Option<char>>)
    ensures
        firsts@.len() == data@.len(),
        forall|i: int|
            0 <= i < data@.len() ==> #[trigger] firsts@[i] == if data@[i]@.len() > 0 {
                Some(data@[i]@[0])
            } else {
                None
            },
{
    let mut firsts: Vec<Option<char>> = Vec::new();
    let mut i: usize = 0;
    while i < data.len()
        invariant
            i <= data@.len(),
            firsts@.len() == i,
            forall|k: int|
                0 <= k < i ==> #[trigger] firsts@[k] == if data@[k]@.len() > 0 {
                    Some(data@[k]@[0])
                } else {
                    None
                },
        decreases data@.len() - i,
    {
        let chars = chars_of(data[i].as_str());
        if chars.len() > 0 {
            firsts.push(Some(chars[0]));
        } else {
            firsts.push(None);
        }
        i += 1;
    }
    firsts
}

/// Each string of `data` twice, with a space between the two.
pub fn doubled_elements(data: &[String]) -> (doubled: Vec<String>)
    ensures
        doubled@.len() == data@.len(),
        forall|i: int|
            0 <= i < data@.len() ==> #[trigger] doubled@[i]@ == data@[i]@ + " "@ + data@[i]@,
{
    let mut doubled: Vec<String> = Vec::new();
    let mut i: usize = 0;
    while i < data.len()
        invariant
            i <= data@.len(),
            doubled@.len() == i,
            forall|k: int| 0 <= k < i ==> #[trigger] doubled@[k]@ == data@[k]@ + " "@ + data@[k]@,
        decreases data@.len() - i,
    {
        let mut twice = data[i].clone();
        twice.append(" ");
        twice.append(data[i].as_str());
        doubled.push(twice);
        i += 1;
    }
    doubled
}

/// `text` cut down to its first character; a text of one character or none
/// is left as it is.
pub open spec fn shortened(text: Seq<char>) -> Seq<char> {
    if text.len() > 1 {
        text.take(1)
    } else {
        text
    }
}

/// Cuts each string of `data` down to its first character; an empty string
/// stays empty.
pub fn shorten_strings(data: &mut [String])
    ensures
        final(data)@.len() == old(data)@.len(),
        forall|i: int|
            0 <= i < old(data)@.len() ==> #[trigger] final(data)@[i]@ == shortened(old(data)@[i]@),
{
    let mut i: usize = 0;
    while i < data.len()
        invariant
            i <= data@.len(),
            data@.len() == old(data)@.len(),
            forall|k: int| 0 <= k < i ==> #[trigger] data@[k]@ == shortened(old(data)@[k]@),
            forall|k: int| i <= k < data@.len() ==> data@[k] == old(data)@[k],
        decreases data@.len() - i,
    {
        let chars = chars_of(data[i].as_str());
        let mut short = String::new();
        if chars.len() > 0 {
            push_char(&mut short, chars[0]);
        }
        assert(short@ =~= shortened(chars@));
        data[i] = short;
        i += 1;
    }
}

} // verus!
