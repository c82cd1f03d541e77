use phoneme_align::grammar::{dfa, dict};

#[test]
fn dfa_for_three_words() {
    assert_eq!(dfa(3), "0 2 1 0 1\n1 1 2 0 0\n2 0 3 0 0\n3 -1 -1 1 0");
}

#[test]
fn dfa_for_one_word() {
    assert_eq!(dfa(1), "0 0 1 0 1\n1 -1 -1 1 0");
}

#[test]
fn dfa_without_words_is_the_closing_line() {
    assert_eq!(dfa(0), "0 -1 -1 1 0");
}

#[test]
fn dfa_has_one_line_per_word_and_a_closing_line() {
    for n in 1..40usize {
        let text = dfa(n);
        let lines: Vec<&str> = text.split('\n').collect();
        assert_eq!(lines.len(), n + 1);
        assert_eq!(lines[n], format!("{} -1 -1 1 0", n));
    }
}

#[test]
fn dfa_lines_count_states_down_and_symbols_up() {
    let n = 12usize;
    let text = dfa(n);
    let lines: Vec<&str> = text.split('\n').collect();
    for i in 0..n {
        let fields: Vec<&str> = lines[i].split(' ').collect();
        assert_eq!(fields.len(), 5);
        assert_eq!(fields[0], i.to_string());
        assert_eq!(fields[1], (n - 1 - i).to_string());
        assert_eq!(fields[2], (i + 1).to_string());
        assert_eq!(fields[3], "0");
        assert_eq!(fields[4], if i == 0 { "1" } else { "0" });
    }
}

#[test]
fn dfa_marks_only_the_first_line_initial() {
    let text = dfa(25);
    let initial: Vec<usize> = text
        .split('\n')
        .enumerate()
        .filter(|(_, line)| line.ends_with(" 1"))
        .map(|(i, _)| i)
        .collect();
    assert_eq!(initial, vec![0]);
}

#[test]
fn dfa_writes_numbers_of_several_digits() {
    let text = dfa(101);
    let lines: Vec<&str> = text.split('\n').collect();
    assert_eq!(lines[0], "0 100 1 0 1");
    assert_eq!(lines[9], "9 91 10 0 0");
    assert_eq!(lines[100], "100 0 101 0 0");
    assert_eq!(lines[101], "101 -1 -1 1 0");
}

#[test]
fn dict_for_an_utterance() {
    let words = [" silB", " k a q o", " silE"];
    assert_eq!(dict(&words), "0 [w_0] silB\n1 [w_1] k a q o\n2 [w_2] silE");
}

#[test]
fn dict_keeps_the_word_text_as_it_is() {
    let words = ["a  b", "", "x\ty [w_9]"];
    assert_eq!(dict(&words), "0 [w_0]a  b\n1 [w_1]\n2 [w_2]x\ty [w_9]");
}

#[test]
fn dict_without_words_is_empty() {
    let words: [&str; 0] = [];
    assert_eq!(dict(&words), "");
}

#[test]
fn dict_numbers_every_line() {
    let words: Vec<String> = (0..15).map(|i| format!(" w{}", i)).collect();
    let refs: Vec<&str> = words.iter().map(|w| w.as_str()).collect();
    let text = dict(&refs);
    let lines: Vec<&str> = text.split('\n').collect();
    assert_eq!(lines.len(), 15);
    for i in 0..15 {
        assert_eq!(lines[i], format!("{} [w_{}] w{}", i, i, i));
    }
}
