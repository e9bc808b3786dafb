//! The text transforms: each a pure function from a text, taken character
//! by character, to a new text.

use vstd::prelude::*;
use vstd::seq_lib::lemma_flatten_concat;
use crate::unicode::{
    is_upper, is_white_space, lower_of, lowercase_mapping, upper_of, uppercase_mapping,
};

verus! {

/// What stands for `c` in leet: a digit for each of `a e i o s t`, in
/// either case, and `c` itself otherwise.
pub open spec fn leet_char(c: char) -> char {
    if c == 'a' || c == 'A' {
        '4'
    } else if c == 'e' || c == 'E' {
        '3'
    } else if c == 'i' || c == 'I' {
        '1'
    } else if c == 'o' || c == 'O' {
        '0'
    } else if c == 's' || c == 'S' {
        '5'
    } else if c == 't' || c == 'T' {
        '7'
    } else {
        c
    }
}

/// A text with each character replaced by what stands for it in leet.
pub open spec fn leeted(text: Seq<char>) -> Seq<char> {
    text.map_values(|c: char| leet_char(c))
}

/// Replaces `a e i o s t`, in either case, by `4 3 1 0 5 7`.
pub fn leet(text: &str) -> (out: String)
    ensures
        out@ == leeted(text@),
{
    let mut out = String::new();
    for c in it: text.chars()
        invariant
            it.seq() == text@,
            out@ == leeted(text@.take(it.index())),
    {
        let d = match c {
            'a' | 'A' => '4',
            'e' | 'E' => '3',
            'i' | 'I' => '1',
            'o' | 'O' => '0',
            's' | 'S' => '5',
            't' | 'T' => '7',
            _ => c,
        };
        out.push(d);
        assert(text@.take(it.index() + 1) == text@.take(it.index()).push(c));
    }
    out
}

/// The characters of the text in the opposite order.
pub fn reverse(text: &str) -> (out: String)
    ensures
        out@ == text@.reverse(),
{
    let mut out = String::new();
    for c in it: text.chars().rev()
        invariant
            it.seq() == text@.reverse(),
            out@ == text@.reverse().take(it.index()),
    {
        out.push(c);
        assert(text@.reverse().take(it.index() + 1) == text@.reverse().take(it.index()).push(c));
    }
    out
}

/// What stands for `c` once its case is swapped: its lowercase mapping
/// where `c` is uppercase, its uppercase mapping otherwise.
pub open spec fn swap_case(c: char) -> Seq<char> {
    if is_upper(c) {
        lowercase_mapping(c)
    } else {
        uppercase_mapping(c)
    }
}

/// A text with the case of each character swapped.
pub open spec fn inverted(text: Seq<char>) -> Seq<char> {
    text.flat_map(|c: char| swap_case(c))
}

/// A text with each character replaced by its uppercase mapping.
pub open spec fn uppercased(text: Seq<char>) -> Seq<char> {
    text.flat_map(|c: char| uppercase_mapping(c))
}

/// A text with its white space left out.
pub open spec fn without_spaces(text: Seq<char>) -> Seq<char> {
    text.filter(|c: char| !is_white_space(c))
}

/// Turns uppercase characters into lowercase and all others into uppercase.
pub fn invert(text: &str) -> (out: String)
    ensures
        out@ == inverted(text@),
{
    let mut out = String::new();
    for c in it: text.chars()
        invariant
            it.seq() == text@,
            out@ == inverted(text@.take(it.index())),
    {
        let swapped = if c.is_uppercase() {
            lower_of(c)
        } else {
            upper_of(c)
        };
        out.append(swapped.as_str());
        proof {
            text@.lemma_flat_map_take_append(|c: char| swap_case(c), it.index());
        }
    }
    assert(text@.take(text@.len() as int) == text@);
    out
}

/// Replaces each character by its uppercase mapping.
pub fn uppercase(text: &str) -> (out: String)
    ensures
        out@ == uppercased(text@),
{
    let mut out = String::new();
    for c in it: text.chars()
        invariant
            it.seq() == text@,
            out@ == uppercased(text@.take(it.index())),
    {
        let upper = upper_of(c);
        out.append(upper.as_str());
        proof {
            text@.lemma_flat_map_take_append(|c: char| uppercase_mapping(c), it.index());
        }
    }
    assert(text@.take(text@.len() as int) == text@);
    out
}

/// Leaves out every white-space character and keeps the others in order.
pub fn no_spaces(text: &str) -> (out: String)
    ensures
        out@ == without_spaces(text@),
        forall|i: int| 0 <= i < out@.len() ==> !is_white_space(#[trigger] out@[i]),
{
    let mut out = String::new();
    for c in it: text.chars()
        invariant
            it.seq() == text@,
            out@ == without_spaces(text@.take(it.index())),
    {
        if !c.is_whitespace() {
            out.push(c);
        }
        proof {
            assert(text@.take(it.index() + 1) == text@.take(it.index()).push(c));
            text@.take(it.index()).lemma_filter_push(c, |c: char| !is_white_space(c));
        }
    }
    proof {
        assert(text@.take(text@.len() as int) == text@);
        lemma_without_spaces_has_none(text@);
    }
    out
}

/// Nothing that is left after white space is taken out is white space.
pub proof fn lemma_without_spaces_has_none(text: Seq<char>)
    ensures
        forall|i: int|
            0 <= i < without_spaces(text).len() ==> !is_white_space(
                #[trigger] without_spaces(text)[i],
            ),
{
    let keep = |c: char| !is_white_space(c);
    assert forall|i: int| 0 <= i < without_spaces(text).len() implies !is_white_space(
        #[trigger] without_spaces(text)[i],
    ) by {
        text.lemma_filter_pred(keep, i);
    }
}

/// The words of a text: its longest runs of characters that are no white
/// space, in the order in which they stand.
pub open spec fn words(text: Seq<char>) -> Seq<Seq<char>>
    decreases text.len(),
{
    if text.len() == 0 {
        Seq::empty()
    } else {
        let before = words(text.drop_last());
        if is_white_space(text.last()) {
            before
        } else if text.len() >= 2 && !is_white_space(text[text.len() - 2]) {
            before.drop_last().push(before.last().push(text.last()))
        } else {
            before.push(seq![text.last()])
        }
    }
}

/// The first character of each word of a text, in order.
pub open spec fn initials(text: Seq<char>) -> Seq<char> {
    words(text).map_values(|word: Seq<char>| word.first())
}

/// No word is empty, and a text that ends in a character that is no white
/// space has a last word.
pub proof fn lemma_words_nonempty(text: Seq<char>)
    ensures
        forall|k: int| 0 <= k < words(text).len() ==> (#[trigger] words(text)[k]).len() > 0,
        text.len() > 0 && !is_white_space(text.last()) ==> words(text).len() > 0,
    decreases text.len(),
{
    if text.len() > 0 {
        let shorter = text.drop_last();
        lemma_words_nonempty(shorter);
        if text.len() >= 2 {
            assert(shorter.last() == text[text.len() - 2]);
        }
        assert forall|k: int| 0 <= k < words(text).len() implies (#[trigger] words(text)[k]).len()
            > 0 by {
            if k < words(shorter).len() - 1 {
                assert(words(text)[k] == words(shorter)[k]);
            }
        }
    }
}

/// No word holds white space, and the words joined are the text without
/// its white space.
pub proof fn lemma_words_join(text: Seq<char>)
    ensures
        forall|k: int, j: int|
            0 <= k < words(text).len() && 0 <= j < words(text)[k].len() ==> !is_white_space(
                #[trigger] words(text)[k][j],
            ),
        words(text).flatten() == without_spaces(text),
    decreases text.len(),
{
    let keep = |c: char| !is_white_space(c);
    if text.len() == 0 {
        reveal(Seq::filter);
        assert(words(text).flatten() =~= without_spaces(text));
    } else {
        let shorter = text.drop_last();
        let c = text.last();
        let before = words(shorter);
        lemma_words_join(shorter);
        lemma_words_nonempty(shorter);
        assert(text == shorter.push(c));
        shorter.lemma_filter_push(c, keep);
        if is_white_space(c) {
        } else if text.len() >= 2 && !is_white_space(text[text.len() - 2]) {
            assert(shorter.last() == text[text.len() - 2]);
            let start = before.drop_last();
            let word = before.last();
            assert(before == start.push(word));
            start.lemma_flatten_push(word);
            start.lemma_flatten_push(word.push(c));
            assert(start.flatten() + word.push(c) =~= start.flatten() + word + seq![c]);
            assert(without_spaces(shorter).push(c) =~= without_spaces(shorter) + seq![c]);
            assert forall|k: int, j: int|
                0 <= k < words(text).len() && 0 <= j < words(text)[k].len() implies !is_white_space(
                #[trigger] words(text)[k][j],
            ) by {
                if k < start.len() {
                    assert(words(text)[k] == before[k]);
                } else if j < word.len() {
                    assert(words(text)[k][j] == before[before.len() - 1][j]);
                }
            }
        } else {
            before.lemma_flatten_push(seq![c]);
            assert(without_spaces(shorter).push(c) =~= without_spaces(shorter) + seq![c]);
            assert forall|k: int, j: int|
                0 <= k < words(text).len() && 0 <= j < words(text)[k].len() implies !is_white_space(
                #[trigger] words(text)[k][j],
            ) by {
                if k < before.len() {
                    assert(words(text)[k] == before[k]);
                }
            }
        }
    }
}

/// A character adds an initial where it starts a word: where it is no
/// white space and stands first or after white space.
pub proof fn lemma_initials_push(text: Seq<char>, c: char)
    ensures
        initials(text.push(c)) == (if !is_white_space(c) && (text.len() == 0 || is_white_space(
            text.last(),
        )) {
            initials(text).push(c)
        } else {
            initials(text)
        }),
{
    let first = |word: Seq<char>| word.first();
    let longer = text.push(c);
    assert(longer.drop_last() == text);
    assert(longer.last() == c);
    lemma_words_nonempty(text);
    if is_white_space(c) {
    } else if text.len() >= 1 && !is_white_space(text.last()) {
        assert(longer[longer.len() - 2] == text.last());
        let before = words(text);
        let grown = before.drop_last().push(before.last().push(c));
        assert(words(longer) == grown);
        assert(grown.map_values(first) =~= before.map_values(first));
    } else {
        let before = words(text);
        assert(words(longer) == before.push(seq![c]));
        assert(before.push(seq![c]).map_values(first) =~= before.map_values(first).push(c));
    }
}

/// The first character of each word, in upper case.
pub fn acronym(text: &str) -> (out: String)
    ensures
        out@ == uppercased(initials(text@)),
{
    let mut firsts = String::new();
    let mut in_word = false;
    for c in it: text.chars()
        invariant
            it.seq() == text@,
            firsts@ == initials(text@.take(it.index())),
            in_word <==> it.index() > 0 && !is_white_space(text@[it.index() - 1]),
    {
        let space = c.is_whitespace();
        if !space && !in_word {
            firsts.push(c);
        }
        in_word = !space;
        proof {
            assert(text@.take(it.index() + 1) == text@.take(it.index()).push(c));
            lemma_initials_push(text@.take(it.index()), c);
        }
    }
    assert(text@.take(text@.len() as int) == text@);
    uppercase(firsts.as_str())
}

/// Reversing a text twice gives the text back.
pub proof fn lemma_reverse_involution(text: Seq<char>)
    ensures
        text.reverse().reverse() == text,
{
    assert(text.reverse().reverse() =~= text);
}

/// Mapping each character to a run of characters and joining the runs
/// goes through a concatenation.
pub proof fn lemma_flat_map_concat(
    left: Seq<char>,
    right: Seq<char>,
    f: spec_fn(char) -> Seq<char>,
)
    ensures
        (left + right).flat_map(f) == left.flat_map(f) + right.flat_map(f),
{
    assert((left + right).map_values(f) =~= left.map_values(f) + right.map_values(f));
    lemma_flatten_concat(left.map_values(f), right.map_values(f));
}

/// Whether `c` comes back from having its case swapped twice.
pub open spec fn swaps_back(c: char) -> bool {
    inverted(swap_case(c)) == seq![c]
}

/// Whether `c` is its own uppercase mapping.
pub open spec fn is_own_uppercase(c: char) -> bool {
    uppercase_mapping(c) == seq![c]
}

/// Swapping the case twice gives the text back, for a text of
/// characters each of which comes back from a double swap.
pub proof fn lemma_invert_involution(text: Seq<char>)
    requires
        forall|i: int| 0 <= i < text.len() ==> swaps_back(#[trigger] text[i]),
    ensures
        inverted(inverted(text)) == text,
    decreases text.len(),
{
    let swap = |c: char| swap_case(c);
    if text.len() == 0 {
        assert(text.map_values(swap) =~= Seq::<Seq<char>>::empty());
        assert(inverted(text) =~= Seq::<char>::empty());
        assert(inverted(text).map_values(swap) =~= Seq::<Seq<char>>::empty());
        assert(inverted(inverted(text)) =~= text);
    } else {
        let front = text.drop_last();
        let c = text.last();
        assert(text == front.push(c));
        assert forall|i: int| 0 <= i < front.len() implies swaps_back(#[trigger] front[i]) by {
            assert(front[i] == text[i]);
        }
        lemma_invert_involution(front);
        front.lemma_flat_map_push(swap, c);
        assert(inverted(text) == inverted(front) + swap_case(c));
        lemma_flat_map_concat(inverted(front), swap_case(c), swap);
        assert(swaps_back(c));
        assert(front + seq![c] =~= text);
    }
}

/// A text stays as it is where each character is mapped to itself alone.
pub proof fn lemma_flat_map_fixed(text: Seq<char>, f: spec_fn(char) -> Seq<char>)
    requires
        forall|i: int| 0 <= i < text.len() ==> f(#[trigger] text[i]) == seq![text[i]],
    ensures
        text.flat_map(f) == text,
    decreases text.len(),
{
    if text.len() == 0 {
        assert(text.map_values(f) =~= Seq::<Seq<char>>::empty());
        assert(text.flat_map(f) =~= text);
    } else {
        let front = text.drop_last();
        let c = text.last();
        assert(text == front.push(c));
        assert forall|i: int| 0 <= i < front.len() implies f(#[trigger] front[i]) == seq![
            front[i],
        ] by {
            assert(front[i] == text[i]);
        }
        lemma_flat_map_fixed(front, f);
        front.lemma_flat_map_push(f, c);
        assert(front + seq![c] =~= text);
    }
}

/// Putting a text in upper case a second time changes nothing, for a
/// text whose upper case holds only characters that are their own
/// uppercase mapping.
pub proof fn lemma_uppercase_twice_where_settled(text: Seq<char>)
    requires
        forall|i: int|
            0 <= i < uppercased(text).len() ==> is_own_uppercase(#[trigger] uppercased(text)[i]),
    ensures
        uppercased(uppercased(text)) == uppercased(text),
{
    lemma_flat_map_fixed(uppercased(text), |c: char| uppercase_mapping(c));
}

} // verus!
