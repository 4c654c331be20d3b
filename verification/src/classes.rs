//! Membership of a name in a white-space separated list of class names.

use crate::text::{is_space, is_white_space, to_chars};
use vstd::prelude::*;

verus! {

/// Whether `word` stands in `list` at position `at` as a whole word: it is
/// not empty, holds no white space, and white space or an end of the list
/// stands on each side of it.
pub open spec fn is_word_at(list: Seq<char>, at: int, word: Seq<char>) -> bool {
    &&& word.len() > 0
    &&& 0 <= at
    &&& at + word.len() <= list.len()
    &&& list.subrange(at, at + word.len()) == word
    &&& forall|k: int| 0 <= k < word.len() ==> !is_space(#[trigger] word[k])
    &&& (at == 0 || is_space(list[at - 1]))
    &&& (at + word.len() == list.len() || is_space(list[at + word.len()]))
}

/// Whether `word` is one of the words of `list`, which white space separates.
pub open spec fn has_word(list: Seq<char>, word: Seq<char>) -> bool {
    exists|at: int| is_word_at(list, at, word)
}

/// Whether no character of `word` is white space.
fn holds_no_space(word: &Vec<char>) -> (b: bool)
    ensures
        b == (forall|k: int| 0 <= k < word.len() ==> !is_space(#[trigger] word@[k])),
{
    let mut k: usize = 0;
    while k < word.len()
        invariant
            k <= word.len(),
            forall|j: int| 0 <= j < k ==> !is_space(#[trigger] word@[j]),
        decreases word.len() - k,
    {
        if is_white_space(word[k]) {
            return false;
        }
        k += 1;
    }
    true
}

/// Whether `word` stands in `list` at position `at`.
fn matches_at(list: &Vec<char>, at: usize, word: &Vec<char>) -> (b: bool)
    requires
        at + word.len() <= list.len(),
    ensures
        b == (list@.subrange(at as int, at + word.len()) == word@),
{
    let mut k: usize = 0;
    while k < word.len()
        invariant
            k <= word.len(),
            at + word.len() <= list.len(),
            forall|j: int| 0 <= j < k ==> list@[at + j] == word@[j],
        decreases word.len() - k,
    {
        if list[at + k] != word[k] {
            assert(list@.subrange(at as int, at + word.len())[k as int] != word@[k as int]);
            return false;
        }
        k += 1;
    }
    assert(list@.subrange(at as int, at + word.len()) =~= word@);
    true
}

/// Whether the class attribute `classes` names the class `class_name`.
pub fn element_has_class(classes: &str, class_name: &str) -> (b: bool)
    ensures
        b == has_word(classes@, class_name@),
{
    let list = to_chars(classes);
    let word = to_chars(class_name);
    if word.len() == 0 || word.len() > list.len() || !holds_no_space(&word) {
        return false;
    }
    let last: usize = list.len() - word.len();
    let mut at: usize = 0;
    while at <= last
        invariant
            at <= last + 1,
            last == list.len() - word.len(),
            list@ == classes@,
            word@ == class_name@,
            word.len() > 0,
            forall|k: int| 0 <= k < word.len() ==> !is_space(#[trigger] word@[k]),
            forall|j: int| 0 <= j < at ==> !is_word_at(list@, j, word@),
        decreases last + 1 - at,
    {
        let left = at == 0 || is_white_space(list[at - 1]);
        let right = at == last || is_white_space(list[at + word.len()]);
        if left && right && matches_at(&list, at, &word) {
            assert(is_word_at(list@, at as int, word@));
            return true;
        }
        at += 1;
    }
    false
}

} // verus!
