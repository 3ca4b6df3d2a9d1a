//! Text primitives shared by the other modules: prefix and equality tests on
//! string slices, and splitting a line into whitespace-separated words.
use vstd::prelude::*;
use vstd::std_specs::iter::IteratorSpec;
use vstd::utf8::{decode_utf8, valid_utf8};

verus! {

broadcast use vstd::string::group_string_axioms;

/// Whether `c` has the Unicode `White_Space` property.
///
/// This is the answer of `char::is_whitespace`; the set of code points is
/// the one the standard library was built with.
pub uninterp spec fn white_space(c: char) -> bool;

/// `char::is_whitespace` reports the `White_Space` property of its argument.
pub assume_specification[ char::is_whitespace ](c: char) -> (b: bool)
    ensures
        b == white_space(c),
;

/// The error of `core::str::from_utf8`; nothing is read from it.
#[verifier::external_type_specification]
#[verifier::external_body]
pub struct ExUtf8Error(core::str::Utf8Error);

/// `core::str::from_utf8` accepts exactly the well-formed UTF-8 byte
/// sequences, and the string slice it returns holds the characters that
/// those bytes encode.
pub assume_specification[ core::str::from_utf8 ](v: &[u8]) -> (r: Result<
    &str,
    core::str::Utf8Error,
>)
    ensures
        r is Ok <==> valid_utf8(v@),
        r matches Ok(s) ==> s@ == decode_utf8(v@),
;

/// `String::push` appends the character to the end of the string.
pub assume_specification[ String::push ](s: &mut String, c: char)
    ensures
        final(s)@ == old(s)@.push(c),
;

/// `p` is a prefix of `s`.
pub open spec fn has_prefix(s: Seq<char>, p: Seq<char>) -> bool {
    p.len() <= s.len() && s.subrange(0, p.len() as int) == p
}

/// Number of characters from `from` up to the next whitespace character or
/// the end of `s`.
pub open spec fn word_len(s: Seq<char>, from: int) -> nat
    decreases s.len() - from,
{
    if 0 <= from < s.len() && !white_space(s[from]) {
        1 + word_len(s, from + 1)
    } else {
        0
    }
}

/// The words of `s` that start at or after `from`, in order.
pub open spec fn words_from(s: Seq<char>, from: int) -> Seq<Seq<char>>
    decreases s.len() - from,
{
    if from < 0 || from >= s.len() {
        Seq::empty()
    } else if white_space(s[from]) {
        words_from(s, from + 1)
    } else {
        let end = from + 1 + word_len(s, from + 1);
        proof {
            lemma_word_bounds(s, from + 1);
        }
        seq![s.subrange(from, end)] + words_from(s, end)
    }
}

/// The maximal runs of non-whitespace characters of `s`, in order.
pub open spec fn words(s: Seq<char>) -> Seq<Seq<char>> {
    words_from(s, 0)
}

/// A run of non-whitespace characters that ends at whitespace or at the end
/// of the text has exactly the length of the run.
pub proof fn lemma_word_len(s: Seq<char>, from: int, end: int)
    requires
        0 <= from <= end <= s.len(),
        forall|j: int| from <= j < end ==> !white_space(s[j]),
        end == s.len() || white_space(s[end]),
    ensures
        word_len(s, from) == end - from,
    decreases end - from,
{
    if from < end {
        lemma_word_len(s, from + 1, end);
    }
}

/// A word: at least one character, none of them whitespace.
pub open spec fn is_word(w: Seq<char>) -> bool {
    w.len() > 0 && forall|j: int| 0 <= j < w.len() ==> !white_space(#[trigger] w[j])
}

/// Splitting leaves no whitespace behind and makes no empty word: every
/// item of `words_from` is a word.
pub proof fn law_words_are_words(s: Seq<char>, from: int)
    requires
        0 <= from,
    ensures
        forall|k: int| 0 <= k < words_from(s, from).len() ==> is_word(#[trigger] words_from(s, from)[k]),
    decreases s.len() - from,
{
    if from >= s.len() {
        assert(words_from(s, from).len() == 0);
    } else if white_space(s[from]) {
        law_words_are_words(s, from + 1);
        assert(words_from(s, from) == words_from(s, from + 1));
    } else {
        let end = from + 1 + word_len(s, from + 1);
        lemma_word_bounds(s, from + 1);
        law_words_are_words(s, end);
        let head = s.subrange(from, end);
        let rest = words_from(s, end);
        assert(words_from(s, from) == seq![head] + rest);
        assert(is_word(head)) by {
            assert forall|j: int| 0 <= j < head.len() implies !white_space(#[trigger] head[j]) by {
                assert(head[j] == s[from + j]);
            }
        }
        assert forall|k: int| 0 <= k < words_from(s, from).len() implies is_word(
            #[trigger] words_from(s, from)[k],
        ) by {
            if k == 0 {
                assert(words_from(s, from)[0] == head);
            } else {
                assert(words_from(s, from)[k] == rest[k - 1]);
            }
        }
    }
}

/// The run counted by `word_len` stays inside the text and holds no
/// whitespace.
pub proof fn lemma_word_bounds(s: Seq<char>, from: int)
    requires
        0 <= from,
    ensures
        from + word_len(s, from) <= s.len() || word_len(s, from) == 0,
        forall|j: int| from <= j < from + word_len(s, from) ==> !white_space(s[j]),
    decreases s.len() - from,
{
    if from < s.len() && !white_space(s[from]) {
        lemma_word_bounds(s, from + 1);
    }
}

/// Tests whether `s` begins with `prefix`.
pub fn starts_with(s: &str, prefix: &str) -> (r: bool)
    ensures
        r == has_prefix(s@, prefix@),
{
    let mut rest = s.chars();
    let mut wanted = prefix.chars();
    let ghost mut seen: Seq<char> = Seq::empty();
    loop
        invariant
            rest.obeys_prophetic_iter_laws(),
            wanted.obeys_prophetic_iter_laws(),
            rest.decrease() is Some,
            wanted.decrease() is Some,
            seen + rest.remaining() == s@,
            seen + wanted.remaining() == prefix@,
        decreases wanted.decrease()->0,
    {
        let ghost before_wanted = wanted.remaining();
        let ghost before_rest = rest.remaining();
        match wanted.next() {
            None => {
                assert(prefix@ =~= seen);
                assert(s@.subrange(0, seen.len() as int) =~= seen);
                return true;
            },
            Some(p) => {
                match rest.next() {
                    None => {
                        assert(s@ =~= seen);
                        assert(prefix@.len() == seen.len() + before_wanted.len());
                        return false;
                    },
                    Some(c) => {
                        assert(prefix@[seen.len() as int] == p);
                        assert(s@[seen.len() as int] == c);
                        if c != p {
                            assert(!has_prefix(s@, prefix@)) by {
                                if has_prefix(s@, prefix@) {
                                    assert(s@.subrange(0, prefix@.len() as int)[seen.len() as int]
                                        == s@[seen.len() as int]);
                                }
                            }
                            return false;
                        }
                        proof {
                            assert(seen.push(c) + rest.remaining() =~= seen + before_rest);
                            assert(seen.push(p) + wanted.remaining() =~= seen + before_wanted);
                            seen = seen.push(c);
                        }
                    },
                }
            },
        }
    }
}

/// Tests whether `a` and `b` hold the same characters.
pub fn same_text(a: &str, b: &str) -> (r: bool)
    ensures
        r == (a@ == b@),
{
    let mut left = a.chars();
    let mut right = b.chars();
    let ghost mut seen: Seq<char> = Seq::empty();
    loop
        invariant
            left.obeys_prophetic_iter_laws(),
            right.obeys_prophetic_iter_laws(),
            left.decrease() is Some,
            right.decrease() is Some,
            seen + left.remaining() == a@,
            seen + right.remaining() == b@,
        decreases left.decrease()->0,
    {
        let ghost before_left = left.remaining();
        let ghost before_right = right.remaining();
        match left.next() {
            None => {
                assert(a@ =~= seen);
                match right.next() {
                    None => {
                        assert(b@ =~= seen);
                        return true;
                    },
                    Some(_) => {
                        assert(b@.len() == seen.len() + before_right.len());
                        return false;
                    },
                }
            },
            Some(x) => {
                match right.next() {
                    None => {
                        assert(b@ =~= seen);
                        assert(a@.len() == seen.len() + before_left.len());
                        return false;
                    },
                    Some(y) => {
                        assert(a@[seen.len() as int] == x);
                        assert(b@[seen.len() as int] == y);
                        if x != y {
                            return false;
                        }
                        proof {
                            assert(seen.push(x) + left.remaining() =~= seen + before_left);
                            assert(seen.push(y) + right.remaining() =~= seen + before_right);
                            seen = seen.push(x);
                        }
                    },
                }
            },
        }
    }
}

/// The words of `s` from `start` on begin with the run `start..end` when
/// that run is free of whitespace and is closed by whitespace or by the end
/// of the text.
pub proof fn lemma_words_split(s: Seq<char>, start: int, end: int)
    requires
        0 <= start < end <= s.len(),
        forall|j: int| start <= j < end ==> !white_space(s[j]),
        end == s.len() || white_space(s[end]),
    ensures
        words_from(s, start) == seq![s.subrange(start, end)] + words_from(s, end),
{
    lemma_word_len(s, start + 1, end);
}

/// Splits `line` into its whitespace-separated words, in order.
pub fn split_whitespace(line: &str) -> (r: Vec<String>)
    ensures
        r.deep_view() == words(line@),
{
    let n = line.unicode_len();
    let mut rest = line.chars();
    let mut out: Vec<String> = Vec::new();
    let mut i: usize = 0;
    let mut start: usize = 0;
    let mut in_word = false;
    assert(line@.skip(0) =~= line@);
    assert(out.deep_view() =~= Seq::<Seq<char>>::empty());
    loop
        invariant
            rest.obeys_prophetic_iter_laws(),
            rest.decrease() is Some,
            n == line@.len(),
            i <= n,
            rest.remaining() == line@.skip(i as int),
            in_word ==> start < i && forall|j: int| start <= j < i ==> !white_space(line@[j]),
            in_word ==> out.deep_view() + words_from(line@, start as int) == words(line@),
            !in_word ==> out.deep_view() + words_from(line@, i as int) == words(line@),
        decreases rest.decrease()->0,
    {
        let ghost before = out.deep_view();
        match rest.next() {
            None => {
                assert(i == n);
                if in_word {
                    let word = line.substring_char(start, i);
                    out.push(word.to_owned());
                    proof {
                        lemma_words_split(line@, start as int, i as int);
                        assert(out.deep_view() =~= before.push(line@.subrange(start as int, i as int)));
                    }
                }
                assert(out.deep_view() =~= words(line@));
                return out;
            },
            Some(c) => {
                assert(i < n);
                assert(line@.skip(i as int)[0] == line@[i as int]);
                assert(line@.skip(i as int).drop_first() =~= line@.skip(i + 1));
                if c.is_whitespace() {
                    if in_word {
                        let word = line.substring_char(start, i);
                        out.push(word.to_owned());
                        proof {
                            lemma_words_split(line@, start as int, i as int);
                            assert(out.deep_view() =~= before.push(
                                line@.subrange(start as int, i as int),
                            ));
                            assert(out.deep_view() + words_from(line@, i as int) =~= before
                                + words_from(line@, start as int));
                        }
                        in_word = false;
                    }
                } else {
                    if !in_word {
                        start = i;
                        in_word = true;
                    }
                }
                i = i + 1;
            },
        }
    }
}

} // verus!
