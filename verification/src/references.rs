//! Functions that hand back one of the references they were given, or a
//! part of it: the longer of two texts, the larger of two numbers, the
//! first word of a sentence.

use vstd::prelude::*;
use vstd::string::StringSliceAdditionalSpecFns;
use vstd::utf8::*;

verus! {

/// The number of bytes that a text takes in UTF-8.
pub open spec fn utf8_len(text: Seq<char>) -> nat {
    encode_utf8(text).len()
}

/// The position of the first space of a text, or its length where it
/// holds none. Only the character U+0020 counts.
pub open spec fn first_space(text: Seq<char>) -> int
    decreases text.len(),
{
    if text.len() == 0 || text[0] == ' ' {
        0
    } else {
        1 + first_space(text.drop_first())
    }
}

/// The first space stands where a space-free start of the text ends.
pub proof fn lemma_first_space_is(text: Seq<char>, n: int)
    requires
        0 <= n <= text.len(),
        forall|i: int| 0 <= i < n ==> text[i] != ' ',
        n < text.len() ==> text[n] == ' ',
    ensures
        first_space(text) == n,
    decreases text.len(),
{
    if text.len() == 0 || text[0] == ' ' {
    } else {
        let rest = text.drop_first();
        assert forall|i: int| 0 <= i < n - 1 implies rest[i] != ' ' by {
            assert(rest[i] == text[i + 1]);
        }
        lemma_first_space_is(rest, n - 1);
    }
}

/// A space among the characters shows as the byte 0x20 among the bytes.
proof fn lemma_space_shows_in_bytes(text: Seq<char>, k: int)
    requires
        0 <= k < text.len(),
        text[k] == ' ',
    ensures
        exists|j: int| 0 <= j < encode_utf8(text).len() && encode_utf8(text)[j] == 0x20u8,
    decreases text.len(),
{
    let head = encode_scalar(text[0] as u32);
    let tail = encode_utf8(text.drop_first());
    assert(encode_utf8(text) == head + tail);
    if k == 0 {
        assert(0x20u32 & 0x7F == 0x20u32) by (bit_vector);
        assert(head[0] == 0x20u8);
        assert((head + tail)[0] == 0x20u8);
    } else {
        lemma_space_shows_in_bytes(text.drop_first(), k - 1);
        let j = choose|j: int| 0 <= j < tail.len() && tail[j] == 0x20u8;
        assert((head + tail)[head.len() + j] == 0x20u8);
    }
}

/// A text whose bytes start with 0x20 starts with a space.
proof fn lemma_leading_space_byte(text: Seq<char>)
    requires
        encode_utf8(text).len() > 0,
        encode_utf8(text)[0] == 0x20u8,
    ensures
        text.len() > 0,
        text[0] == ' ',
{
    assert(text.len() > 0);
    encode_utf8_first_scalar(text);
    assert(0x20u8 & 0x7F == 0x20u8) by (bit_vector);
    assert(decode_first_scalar(encode_utf8(text)) == 0x20u32);
    char_u32_cast(text[0], 0x20u32);
}

/// The longer of two texts by their length in bytes; the second where
/// they are equally long.
pub fn longest<'a>(x: &'a str, y: &'a str) -> (out: &'a str)
    ensures
        out == (if utf8_len(x@) > utf8_len(y@) {
            x
        } else {
            y
        }),
{
    if x.as_bytes().len() > y.as_bytes().len() {
        x
    } else {
        y
    }
}

/// The longer of two texts, chosen as `longest` chooses.
pub fn longest_wrong<'a>(x: &'a str, y: &'a str) -> (out: &'a str)
    ensures
        out == (if utf8_len(x@) > utf8_len(y@) {
            x
        } else {
            y
        }),
{
    if x.as_bytes().len() > y.as_bytes().len() {
        x
    } else {
        y
    }
}

/// The first text, whatever the second is. The result borrows from the
/// first alone, so it may outlive the second.
#[allow(non_snake_case)]
pub fn returnX<'a>(x: &'a str, y: &str) -> (out: &'a str)
    ensures
        out == x,
{
    x
}

/// A fixed text, whatever the arguments are. It borrows from neither.
#[allow(non_snake_case)]
pub fn returnResult<'a>(x: &str, y: &str) -> (out: &'a str)
    ensures
        out@ == "really long string"@,
{
    "really long string"
}

/// The same fixed text as an owned string.
#[allow(non_snake_case)]
pub fn returnResultAsString(x: &str, y: &str) -> (out: String)
    ensures
        out@ == "really long string"@,
{
    String::from_str("really long string")
}

/// The start of a text up to its first space, or the whole text where
/// it holds none.
pub fn first_word<'a>(s: &'a str) -> (word: &'a str)
    ensures
        word@ == s@.take(first_space(s@)),
{
    let bytes = s.as_bytes();
    let mut i: usize = 0;
    proof {
        encode_utf8_valid_utf8(s@);
        encode_utf8_decode_utf8(s@);
    }
    while i < bytes.len()
        invariant
            i <= bytes.len(),
            bytes@ == encode_utf8(s@),
            valid_utf8(bytes@),
            decode_utf8(bytes@) == s@,
            forall|j: int| 0 <= j < i ==> bytes@[j] != 0x20u8,
        decreases bytes.len() - i,
    {
        if bytes[i] == 0x20 {
            proof {
                is_char_boundary_iff_not_is_continuation_byte(bytes@, i as int);
            }
            let (word, rest) = s.split_at(i);
            proof {
                decode_utf8_split(bytes@, i as int);
                encode_utf8_decode_utf8(word@);
                encode_utf8_decode_utf8(rest@);
                assert(s@ == word@ + rest@);
                lemma_leading_space_byte(rest@);
                assert forall|k: int| 0 <= k < word@.len() implies s@[k] != ' ' by {
                    if word@[k] == ' ' {
                        lemma_space_shows_in_bytes(word@, k);
                    }
                }
                assert(s@[word@.len() as int] == rest@[0]);
                lemma_first_space_is(s@, word@.len() as int);
                assert(word@ =~= s@.take(word@.len() as int));
            }
            return word;
        }
        i += 1;
    }
    proof {
        assert forall|k: int| 0 <= k < s@.len() implies s@[k] != ' ' by {
            if s@[k] == ' ' {
                lemma_space_shows_in_bytes(s@, k);
            }
        }
        lemma_first_space_is(s@, s@.len() as int);
        assert(s@ =~= s@.take(s@.len() as int));
    }
    s
}

/// The larger of two numbers; the first where they are equal.
pub fn max_ref<'a>(left: &'a i32, right: &'a i32) -> (out: &'a i32)
    ensures
        out == (if *left < *right {
            right
        } else {
            left
        }),
{
    if *left < *right {
        right
    } else {
        left
    }
}

/// Takes two references of which the first lives at least as long as
/// the second, and does nothing with them.
pub fn foobar<'a, 'b>(_x: &'a i32, _y: &'b i32) where 'a: 'b {
}

/// A part of a text that is kept by reference: it cannot outlive the text.
pub struct ImportantExcerpt<'a> {
    pub part: &'a str,
}

impl<'a> ImportantExcerpt<'a> {
    /// The line that calls for attention to an announcement.
    pub fn attention(announcement: &str) -> (line: String)
        ensures
            line@ == "Attention please: "@ + announcement@,
    {
        let mut line = String::from_str("Attention please: ");
        line.append(announcement);
        line
    }

    /// The excerpt. It borrows from the excerpt's text, not from the
    /// announcement, which the caller shows with `attention`.
    pub fn return_part(&self, announcement: &str) -> (part: &str)
        ensures
            part == self.part,
    {
        self.part
    }
}

} // verus!
