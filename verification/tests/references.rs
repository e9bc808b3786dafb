use transmogrifier::references::{
    first_word, foobar, longest, longest_wrong, max_ref, returnResult, returnResultAsString,
    returnX, ImportantExcerpt,
};

#[test]
fn longest_of_two_texts() {
    assert_eq!(longest("abcd", "xyz"), "abcd");
    assert_eq!(longest("xyz", "abcd"), "abcd");
}

#[test]
fn longest_takes_the_second_of_equals() {
    assert_eq!(longest("abc", "xyz"), "xyz");
    assert_eq!(longest("", ""), "");
}

#[test]
fn longest_counts_bytes() {
    assert_eq!(longest("éé", "abc"), "éé");
    assert_eq!(longest("é", "ab"), "ab");
}

#[test]
fn longest_hands_back_its_argument() {
    let string1 = String::from("abcd");
    let string2 = String::from("xyz");
    let result = longest(string1.as_str(), string2.as_str());
    assert!(std::ptr::eq(result, string1.as_str()));
}

#[test]
fn longest_wrong_chooses_as_longest() {
    assert_eq!(longest_wrong("abcd", "xyz"), "abcd");
    assert_eq!(longest_wrong("xyz", "abcd"), "abcd");
    assert_eq!(longest_wrong("abc", "xyz"), "xyz");
    assert_eq!(longest_wrong("éé", "abc"), "éé");
}

#[test]
fn return_x_is_the_first() {
    let string1 = String::from("abcd");
    let result;
    {
        let string2 = String::from("xyz");
        result = returnX(string1.as_str(), string2.as_str());
    }
    assert_eq!(result, "abcd");
    assert_eq!(returnX("", "longer"), "");
}

#[test]
fn return_result_is_fixed() {
    assert_eq!(returnResult("a", "b"), "really long string");
    assert_eq!(returnResult("", ""), "really long string");
}

#[test]
fn return_result_as_string_is_fixed() {
    assert_eq!(returnResultAsString("a", "b"), String::from("really long string"));
}

#[test]
fn first_word_stops_at_the_first_space() {
    assert_eq!(first_word("hello world"), "hello");
    assert_eq!(first_word("one two three"), "one");
}

#[test]
fn first_word_of_a_text_without_space_is_the_text() {
    assert_eq!(first_word("hello"), "hello");
    assert_eq!(first_word(""), "");
}

#[test]
fn first_word_after_a_leading_space_is_empty() {
    assert_eq!(first_word(" hello"), "");
    assert_eq!(first_word(" "), "");
}

#[test]
fn first_word_knows_only_the_plain_space() {
    assert_eq!(first_word("tab\tbed row"), "tab\tbed");
    assert_eq!(first_word("new\nline"), "new\nline");
    assert_eq!(first_word("nb\u{a0}sp end"), "nb\u{a0}sp");
}

#[test]
fn first_word_with_wide_characters() {
    assert_eq!(first_word("préface du livre"), "préface");
    assert_eq!(first_word("日本語 テキスト"), "日本語");
    assert_eq!(first_word("😀 smile"), "😀");
}

#[test]
fn first_word_is_a_part_of_its_text() {
    let text = String::from("Call me");
    let word = first_word(text.as_str());
    assert!(std::ptr::eq(word.as_ptr(), text.as_ptr()));
    assert_eq!(word.len(), 4);
}

#[test]
fn max_ref_of_two_numbers() {
    assert_eq!(*max_ref(&1, &2), 2);
    assert_eq!(*max_ref(&2, &1), 2);
    assert_eq!(*max_ref(&-5, &-7), -5);
    assert_eq!(*max_ref(&i32::MIN, &i32::MAX), i32::MAX);
}

#[test]
fn max_ref_takes_the_first_of_equals() {
    let left = 7;
    let right = 7;
    assert!(std::ptr::eq(max_ref(&left, &right), &left));
}

#[test]
fn foobar_takes_any_two_numbers() {
    let outer = 1;
    {
        let inner = 2;
        foobar(&outer, &inner);
    }
    foobar(&outer, &outer);
}

#[test]
fn excerpt_returns_its_part() {
    let novel = String::from("Call me Ishmael. Some years ago...");
    let first_sentence = novel.split('.').next().expect("Could not find");
    let excerpt = ImportantExcerpt { part: first_sentence };
    assert_eq!(excerpt.return_part("listen"), "Call me Ishmael");
}

#[test]
fn excerpt_announcement_line() {
    assert_eq!(ImportantExcerpt::attention("listen"), "Attention please: listen");
    assert_eq!(ImportantExcerpt::attention(""), "Attention please: ");
}
