use phoneme_align::grammar::{dfa, dict};
use phoneme_align::words::{decoder_phoneme, sentence, words};

fn pairs(phonemes: &[&str]) -> Vec<(String, String)> {
    phonemes.iter().map(|phoneme| (phoneme.to_string(), String::new())).collect()
}

#[test]
fn the_decoder_has_its_own_names() {
    assert_eq!(decoder_phoneme("cl"), "q");
    assert_eq!(decoder_phoneme("pau"), "sp");
    assert_eq!(decoder_phoneme("N"), "n");
    assert_eq!(decoder_phoneme("I"), "i");
    assert_eq!(decoder_phoneme("U"), "u");
}

#[test]
fn other_names_stay_as_they_are() {
    for name in ["a", "k", "ky", "sh", "ts", "sil", "", "c", "pa", "l", "au"] {
        assert_eq!(decoder_phoneme(name), name);
    }
}

#[test]
fn names_are_rewritten_as_the_standard_library_does() {
    for name in [
        "clcl", "ccl", "cll", "xclx", "paupau", "ppau", "papau", "pacl", "cpaul", "CL", "PAU",
        "Pau", "AZ[@`az{", "clpau", "pclau", "\u{3042}cl\u{3044}", "\u{c9}A", "a b",
    ] {
        let expected = name.replace("cl", "q").replace("pau", "sp").to_ascii_lowercase();
        assert_eq!(decoder_phoneme(name), expected);
    }
}

#[test]
fn a_replacement_can_make_the_next_pattern() {
    assert_eq!(decoder_phoneme("paclu"), "paqu");
    assert_eq!(decoder_phoneme("pclau"), "pqau");
}

#[test]
fn the_sentence_leaves_out_the_silences() {
    assert_eq!(sentence(&pairs(&["sil", "k", "a", "cl", "o", "sil"])), " k a q o");
    assert_eq!(sentence(&pairs(&["sil", "a", "pau", "N", "sil"])), " a sp n");
}

#[test]
fn the_sentence_of_a_silent_utterance_is_empty() {
    assert_eq!(sentence(&pairs(&["sil", "sil"])), "");
}

#[test]
fn an_utterance_makes_three_words() {
    assert_eq!(
        words(&pairs(&["sil", "k", "a", "cl", "o", "sil"])),
        vec![" silB".to_string(), " k a q o".to_string(), " silE".to_string()]
    );
}

#[test]
fn the_words_go_into_grammar_and_dictionary() {
    let words = words(&pairs(&["sil", "k", "a", "cl", "o", "sil"]));
    let refs: Vec<&str> = words.iter().map(|word| word.as_str()).collect();
    assert_eq!(dfa(refs.len()), "0 2 1 0 1\n1 1 2 0 0\n2 0 3 0 0\n3 -1 -1 1 0");
    assert_eq!(dict(&refs), "0 [w_0] silB\n1 [w_1] k a q o\n2 [w_2] silE");
}
