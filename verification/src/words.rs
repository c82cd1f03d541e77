//! The words of the grammar for one utterance.
//!
//! The linguistic front end names phonemes in its own way; the decoder's
//! acoustic model knows them under slightly different names, all in lower
//! case. An utterance becomes three words: the opening silence, the whole
//! sentence as one word of phonemes, and the closing silence.

use vstd::prelude::*;
use vstd::string::*;

verus! {

/// `text` with every occurrence of `from` replaced by `to`, the occurrences
/// found from left to right and without overlap.
pub open spec fn replaced(text: Seq<char>, from: Seq<char>, to: Seq<char>) -> Seq<char>
    recommends
        from.len() > 0,
    decreases text.len(),
{
    if from.len() == 0 || text.len() < from.len() {
        text
    } else if text.take(from.len() as int) == from {
        to + replaced(text.skip(from.len() as int), from, to)
    } else {
        seq![text[0]] + replaced(text.skip(1), from, to)
    }
}

/// The lower-case form of an ASCII capital; any other character as it is.
pub open spec fn lower(c: char) -> char {
    if 'A' <= c <= 'Z' {
        (c as u8 + 32) as u8 as char
    } else {
        c
    }
}

/// `text` with its ASCII capitals in lower case.
pub open spec fn lowercase(text: Seq<char>) -> Seq<char> {
    Seq::new(text.len(), |i: int| lower(text[i]))
}

/// The decoder's name for a phoneme of the front end: `cl` becomes `q`,
/// `pau` becomes `sp`, and capitals become lower case.
pub open spec fn decoder_name(phoneme: Seq<char>) -> Seq<char> {
    lowercase(replaced(replaced(phoneme, "cl"@, "q"@), "pau"@, "sp"@))
}

/// The sentence word for phonemes named as the front end names them: each
/// phoneme under the decoder's name, with a space in front of it.
pub open spec fn sentence_text(phonemes: Seq<Seq<char>>) -> Seq<char>
    decreases phonemes.len(),
{
    if phonemes.len() == 0 {
        Seq::empty()
    } else {
        sentence_text(phonemes.drop_last()) + " "@ + decoder_name(phonemes.last())
    }
}

/// The phonemes between the silences at both ends of an utterance.
pub open spec fn inner_phonemes(phonemes: Seq<(Seq<char>, Seq<char>)>) -> Seq<Seq<char>>
    recommends
        phonemes.len() >= 2,
{
    Seq::new((phonemes.len() - 2) as nat, |i: int| phonemes[i + 1].0)
}

/// The three words of the grammar for an utterance.
pub open spec fn word_texts(phonemes: Seq<(Seq<char>, Seq<char>)>) -> Seq<Seq<char>> {
    seq![" silB"@, sentence_text(inner_phonemes(phonemes)), " silE"@]
}

/// Whether `pattern` stands in `text` at position `at`.
fn matches_at(text: &str, at: usize, pattern: &str, pattern_len: usize) -> (found: bool)
    requires
        pattern_len == pattern@.len(),
        at + pattern_len <= text@.len() <= usize::MAX,
    ensures
        found == (text@.subrange(at as int, at + pattern_len) == pattern@),
{
    let mut k: usize = 0;
    while k < pattern_len
        invariant
            k <= pattern_len,
            pattern_len == pattern@.len(),
            at + pattern_len <= text@.len() <= usize::MAX,
            forall|j: int| 0 <= j < k ==> text@[at + j] == pattern@[j],
        decreases pattern_len - k,
    {
        if text.get_char(at + k) != pattern.get_char(k) {
            assert(text@.subrange(at as int, at + pattern_len)[k as int] != pattern@[k as int]);
            return false;
        }
        k += 1;
    }
    assert(text@.subrange(at as int, at + pattern_len) =~= pattern@);
    true
}

/// Replaces every occurrence of `from` in `text` by `to`.
fn replace_all(text: &str, from: &str, to: &str) -> (result: String)
    requires
        from@.len() > 0,
    ensures
        result@ == replaced(text@, from@, to@),
{
    let len: usize = text.unicode_len();
    let from_len: usize = from.unicode_len();
    let mut result = String::new();
    let mut i: usize = 0;
    proof {
        assert(text@.skip(0) =~= text@);
    }
    while i < len
        invariant
            i <= len,
            len == text@.len(),
            from_len == from@.len(),
            from_len > 0,
            result@ + replaced(text@.skip(i as int), from@, to@) == replaced(text@, from@, to@),
        decreases len - i,
    {
        let ghost rest = text@.skip(i as int);
        let ghost before = result@;
        if from_len <= len - i && matches_at(text, i, from, from_len) {
            result.append(to);
            proof {
                assert(rest.take(from_len as int) =~= text@.subrange(i as int, i + from_len));
                assert(rest.skip(from_len as int) =~= text@.skip(i + from_len));
                assert(result@ + replaced(text@.skip(i + from_len), from@, to@) =~= before
                    + replaced(rest, from@, to@)) by {
                    assert(replaced(rest, from@, to@) == to@ + replaced(
                        rest.skip(from_len as int),
                        from@,
                        to@,
                    ));
                }
            }
            i += from_len;
        } else {
            let one = text.substring_char(i, i + 1);
            result.append(one);
            proof {
                assert(one@ =~= seq![rest[0]]);
                assert(rest.skip(1) =~= text@.skip(i + 1));
                if from_len <= len - i {
                    assert(rest.take(from_len as int) =~= text@.subrange(i as int, i + from_len));
                    assert(replaced(rest, from@, to@) == seq![rest[0]] + replaced(
                        rest.skip(1),
                        from@,
                        to@,
                    ));
                    assert(result@ + replaced(text@.skip(i + 1), from@, to@) =~= before
                        + replaced(rest, from@, to@));
                } else {
                    lemma_replaced_short(rest, from@, to@);
                    lemma_replaced_short(rest.skip(1), from@, to@);
                    assert(result@ + rest.skip(1) =~= before + rest);
                }
            }
            i += 1;
        }
    }
    proof {
        assert(text@.skip(len as int) =~= Seq::<char>::empty());
        assert(result@ + Seq::<char>::empty() =~= result@);
    }
    result
}

/// A text shorter than the pattern holds no occurrence of it.
proof fn lemma_replaced_short(text: Seq<char>, from: Seq<char>, to: Seq<char>)
    requires
        text.len() < from.len(),
    ensures
        replaced(text, from, to) == text,
{
}

/// Puts the ASCII capitals of `text` in lower case.
fn to_lowercase(text: &str) -> (result: String)
    ensures
        result@ == lowercase(text@),
{
    let letters = "abcdefghijklmnopqrstuvwxyz";
    proof {
        reveal_strlit("abcdefghijklmnopqrstuvwxyz");
    }
    let len: usize = text.unicode_len();
    let mut result = String::new();
    let mut i: usize = 0;
    while i < len
        invariant
            i <= len,
            len == text@.len(),
            letters@ == "abcdefghijklmnopqrstuvwxyz"@,
            letters@.len() == 26,
            forall|k: int| 0 <= k < 26 ==> letters@[k] == (97 + k) as u8 as char,
            result@ == lowercase(text@.take(i as int)),
        decreases len - i,
    {
        let c = text.get_char(i);
        let ghost before = result@;
        if 'A' <= c && c <= 'Z' {
            let k: usize = (c as u8 - 65) as usize;
            result.append(letters.substring_char(k, k + 1));
            assert(result@ =~= before.push(lower(c)));
        } else {
            result.append(text.substring_char(i, i + 1));
            assert(result@ =~= before.push(lower(c)));
        }
        assert(lowercase(text@.take(i + 1)) =~= lowercase(text@.take(i as int)).push(lower(c)));
        i += 1;
    }
    assert(text@.take(len as int) =~= text@);
    result
}

/// Gives a phoneme of the front end the name that the decoder knows it by.
pub fn decoder_phoneme(phoneme: &str) -> (name: String)
    ensures
        name@ == decoder_name(phoneme@),
{
    proof {
        reveal_strlit("cl");
        reveal_strlit("pau");
    }
    let closed = replace_all(phoneme, "cl", "q");
    let paused = replace_all(closed.as_str(), "pau", "sp");
    to_lowercase(paused.as_str())
}

/// Writes the sentence word of an utterance: every phoneme between the
/// silences at both ends, under the decoder's name and with a space in
/// front of it.
pub fn sentence(phonemes: &Vec<(String, String)>) -> (word: String)
    requires
        phonemes.len() >= 2,
    ensures
        word@ == sentence_text(inner_phonemes(phonemes.deep_view())),
{
    let ghost inner = inner_phonemes(phonemes.deep_view());
    let mut word = String::new();
    let mut i: usize = 1;
    while i < phonemes.len() - 1
        invariant
            1 <= i <= phonemes.len() - 1,
            inner == inner_phonemes(phonemes.deep_view()),
            word@ == sentence_text(inner.take(i - 1)),
        decreases phonemes.len() - i,
    {
        let name = decoder_phoneme(phonemes[i].0.as_str());
        word.append(" ");
        word.append(name.as_str());
        proof {
            let upto = inner.take(i as int);
            assert(upto.drop_last() =~= inner.take(i - 1));
            assert(upto.last() == phonemes@[i as int].0@);
        }
        i += 1;
    }
    proof {
        assert(inner.take(phonemes.len() - 2) =~= inner);
    }
    word
}

/// The three words of the grammar for an utterance: the opening silence,
/// the sentence, the closing silence.
pub fn words(phonemes: &Vec<(String, String)>) -> (words: Vec<String>)
    requires
        phonemes.len() >= 2,
    ensures
        words.deep_view() == word_texts(phonemes.deep_view()),
{
    let mut words: Vec<String> = Vec::with_capacity(3);
    words.push(String::from_str(" silB"));
    words.push(sentence(phonemes));
    words.push(String::from_str(" silE"));
    assert(words.deep_view() =~= word_texts(phonemes.deep_view()));
    words
}

} // verus!
