//! The grammar and the dictionary that constrain the decoder to one known
//! word sequence.
//!
//! The grammar is a finite automaton with one rule per word and one closing
//! rule; the dictionary names the word behind each rule. Both are written as
//! text, one entry per line.

use crate::decimal::{
    decimal, lemma_decimal_digits, lemma_signed_decimal_chars, push_decimal, signed_decimal,
};
use crate::text::{join_lines, lemma_split_join, single_line, split_lines};
use vstd::prelude::*;
use vstd::string::*;

verus! {

/// One transition rule of the grammar.
pub struct Rule {
    /// The state the rule leaves from.
    pub state: int,
    /// The state the rule leads to, or -1 on the closing rule.
    pub next_state: int,
    /// The symbol the rule emits, or -1 on the closing rule.
    pub symbol: int,
    /// Whether the rule marks the accepting state.
    pub accepting: bool,
    /// Whether the rule leaves from the initial state.
    pub initial: bool,
}

/// The rule for the word at index `i` of `n` words.
pub open spec fn word_rule(n: nat, i: nat) -> Rule {
    Rule {
        state: i as int,
        next_state: n - 1 - i,
        symbol: i as int + 1,
        accepting: false,
        initial: i == 0,
    }
}

/// The closing rule of a grammar over `n` words.
pub open spec fn closing_rule(n: nat) -> Rule {
    Rule { state: n as int, next_state: -1, symbol: -1, accepting: true, initial: false }
}

/// The rules of the grammar over `n` words: a linear chain through the words
/// in order, then the closing rule.
pub open spec fn rules(n: nat) -> Seq<Rule> {
    Seq::new(
        n + 1,
        |i: int|
            if i < n {
                word_rule(n, i as nat)
            } else {
                closing_rule(n)
            },
    )
}

/// How a flag is written: `1` when set, `0` when not.
pub open spec fn flag(set: bool) -> Seq<char> {
    if set {
        "1"@
    } else {
        "0"@
    }
}

/// The line of text for one rule: state, next state, symbol, accepting flag
/// and initial flag, separated by single spaces.
pub open spec fn rule_line(rule: Rule) -> Seq<char> {
    signed_decimal(rule.state) + " "@ + signed_decimal(rule.next_state) + " "@ + signed_decimal(
        rule.symbol,
    ) + " "@ + flag(rule.accepting) + " "@ + flag(rule.initial)
}

/// The lines of the grammar over `n` words.
pub open spec fn dfa_lines(n: nat) -> Seq<Seq<char>> {
    Seq::new(n + 1, |i: int| rule_line(rules(n)[i]))
}

/// The grammar over `n` words as one text.
pub open spec fn dfa_text(n: nat) -> Seq<char> {
    join_lines(dfa_lines(n))
}

/// Appends the line of the word rule at index `i` of `num` words.
fn push_word_rule(out: &mut String, num: usize, i: usize)
    requires
        i < num,
    ensures
        final(out)@ == old(out)@ + rule_line(word_rule(num as nat, i as nat)),
{
    proof {
        reveal_strlit(" ");
        reveal_strlit("0");
        reveal_strlit("1");
        reveal_strlit(" 0 1");
        reveal_strlit(" 0 0");
    }
    push_decimal(out, i as u64);
    out.append(" ");
    push_decimal(out, (num - i - 1) as u64);
    out.append(" ");
    push_decimal(out, (i + 1) as u64);
    if i == 0 {
        out.append(" 0 1");
    } else {
        out.append(" 0 0");
    }
    assert(out@ =~= old(out)@ + rule_line(word_rule(num as nat, i as nat)));
}

/// Appends the line of the closing rule of a grammar over `num` words.
fn push_closing_rule(out: &mut String, num: usize)
    ensures
        final(out)@ == old(out)@ + rule_line(closing_rule(num as nat)),
{
    proof {
        lemma_closing_line(num as nat);
    }
    push_decimal(out, num as u64);
    out.append(" -1 -1 1 0");
    assert(out@ =~= old(out)@ + rule_line(closing_rule(num as nat)));
}

/// The closing line is the word count followed by ` -1 -1 1 0`.
pub proof fn lemma_closing_line(n: nat)
    ensures
        rule_line(closing_rule(n)) == decimal(n) + " -1 -1 1 0"@,
{
    reveal_strlit(" ");
    reveal_strlit("0");
    reveal_strlit("1");
    reveal_strlit(" -1 -1 1 0");
    assert(decimal(1) =~= seq!['1']);
    assert(signed_decimal(-1) =~= seq!['-', '1']);
    assert(rule_line(closing_rule(n)) =~= decimal(n) + " -1 -1 1 0"@);
}

/// Writes the grammar that accepts exactly `num` words in order.
///
/// The text has one line per word and a closing line, joined by line feeds.
pub fn dfa(num: usize) -> (text: String)
    ensures
        text@ == dfa_text(num as nat),
{
    let mut text = String::new();
    let ghost lines = dfa_lines(num as nat);
    let mut i: usize = 0;
    proof {
        assert(join_lines(lines.take(0)) =~= Seq::<char>::empty());
    }
    while i < num
        invariant
            i <= num,
            lines == dfa_lines(num as nat),
            text@ == join_lines(lines.take(i as int)),
        decreases num - i,
    {
        if i > 0 {
            proof {
                reveal_strlit("\n");
            }
            text.append("\n");
        }
        push_word_rule(&mut text, num, i);
        proof {
            let upto = lines.take(i + 1);
            assert(upto.drop_last() =~= lines.take(i as int));
            assert(upto.last() == rule_line(word_rule(num as nat, i as nat)));
            if i == 0 {
                assert(join_lines(lines.take(0)) =~= Seq::<char>::empty());
            }
            assert(text@ =~= join_lines(upto));
        }
        i += 1;
    }
    if num > 0 {
        proof {
            reveal_strlit("\n");
        }
        text.append("\n");
    }
    push_closing_rule(&mut text, num);
    proof {
        assert(lines.drop_last() =~= lines.take(num as int));
        assert(lines.last() == rule_line(closing_rule(num as nat)));
        if num == 0 {
            assert(join_lines(lines.take(0)) =~= Seq::<char>::empty());
        }
        assert(text@ =~= join_lines(lines));
    }
    text
}

/// The dictionary line for the word at index `i`: the index, a space, the
/// tag `[w_i]`, and then the word's text as it is.
pub open spec fn dict_line(i: nat, word: Seq<char>) -> Seq<char> {
    decimal(i) + " [w_"@ + decimal(i) + "]"@ + word
}

/// The lines of the dictionary for `words`, one per word and in their order.
pub open spec fn dict_lines(words: Seq<Seq<char>>) -> Seq<Seq<char>> {
    Seq::new(words.len(), |i: int| dict_line(i as nat, words[i]))
}

/// The dictionary for `words` as one text.
pub open spec fn dict_text(words: Seq<Seq<char>>) -> Seq<char> {
    join_lines(dict_lines(words))
}

/// Appends the dictionary line of `word` at index `i`.
fn push_dict_line(out: &mut String, i: usize, word: &str)
    ensures
        final(out)@ == old(out)@ + dict_line(i as nat, word@),
{
    push_decimal(out, i as u64);
    out.append(" [w_");
    push_decimal(out, i as u64);
    out.append("]");
    out.append(word);
    assert(out@ =~= old(out)@ + dict_line(i as nat, word@));
}

/// Writes the dictionary that names each word of the grammar.
///
/// The text has one line per word, joined by line feeds; no words give the
/// empty text.
pub fn dict(words: &[&str]) -> (text: String)
    ensures
        text@ == dict_text(words.deep_view()),
{
    let mut text = String::new();
    let ghost lines = dict_lines(words.deep_view());
    let mut i: usize = 0;
    proof {
        assert(join_lines(lines.take(0)) =~= Seq::<char>::empty());
    }
    while i < words.len()
        invariant
            i <= words.len(),
            lines == dict_lines(words.deep_view()),
            text@ == join_lines(lines.take(i as int)),
        decreases words.len() - i,
    {
        if i > 0 {
            proof {
                reveal_strlit("\n");
            }
            text.append("\n");
        }
        push_dict_line(&mut text, i, words[i]);
        proof {
            let upto = lines.take(i + 1);
            assert(upto.drop_last() =~= lines.take(i as int));
            assert(upto.last() == dict_line(i as nat, words[i as int]@));
            if i == 0 {
                assert(join_lines(lines.take(0)) =~= Seq::<char>::empty());
            }
            assert(text@ =~= join_lines(upto));
        }
        i += 1;
    }
    proof {
        assert(lines.take(words.len() as int) =~= lines);
    }
    text
}

/// A rule's line holds no line feed.
pub proof fn lemma_rule_line_single(rule: Rule)
    ensures
        single_line(rule_line(rule)),
{
    reveal_strlit(" ");
    reveal_strlit("0");
    reveal_strlit("1");
    lemma_signed_decimal_chars(rule.state);
    lemma_signed_decimal_chars(rule.next_state);
    lemma_signed_decimal_chars(rule.symbol);
    let a = signed_decimal(rule.state);
    let b = signed_decimal(rule.next_state);
    let c = signed_decimal(rule.symbol);
    let line = rule_line(rule);
    assert forall|k: int| 0 <= k < line.len() implies line[k] != '\n' by {
        if k < a.len() {
            assert(line[k] == a[k]);
        } else if k < a.len() + 1 {
        } else if k < a.len() + 1 + b.len() {
            assert(line[k] == b[k - a.len() - 1]);
        } else if k < a.len() + 1 + b.len() + 1 {
        } else if k < a.len() + 1 + b.len() + 1 + c.len() {
            assert(line[k] == c[k - a.len() - 1 - b.len() - 1]);
        } else {
        }
    }
}

/// The shape of the grammar over `n >= 1` words.
///
/// Its text has exactly the `n + 1` lines of its rules. The rule of word `i`
/// leads to state `n - 1 - i`. The rule of the first word is the only one
/// that leaves from the initial state. The last line is the word count
/// followed by ` -1 -1 1 0`.
pub proof fn lemma_dfa_shape(n: nat)
    requires
        n >= 1,
    ensures
        split_lines(dfa_text(n)) == dfa_lines(n),
        dfa_lines(n).len() == n + 1,
        rules(n).len() == n + 1,
        forall|i: int| 0 <= i <= n ==> #[trigger] dfa_lines(n)[i] == rule_line(rules(n)[i]),
        forall|i: int| 0 <= i < n ==> (#[trigger] rules(n)[i]).next_state == n - 1 - i,
        forall|i: int| 0 <= i <= n ==> ((#[trigger] rules(n)[i]).initial <==> i == 0),
        dfa_lines(n).last() == decimal(n) + " -1 -1 1 0"@,
{
    let lines = dfa_lines(n);
    assert forall|i: int| 0 <= i < lines.len() implies single_line(#[trigger] lines[i]) by {
        lemma_rule_line_single(rules(n)[i]);
    }
    lemma_split_join(lines);
    lemma_closing_line(n);
}

/// The shape of the dictionary for `words`.
///
/// It has one line per word, as many as the grammar over these words has
/// word rules. Line `i` is the index `i`, a space, the tag `[w_i]` and then
/// the text of word `i`, unchanged. Where there is at least one word and no
/// word holds a line feed, the text has exactly these lines.
pub proof fn lemma_dict_shape(words: Seq<Seq<char>>)
    ensures
        dict_lines(words).len() == words.len(),
        dict_lines(words).len() + 1 == dfa_lines(words.len()).len(),
        forall|i: int|
            0 <= i < words.len() ==> #[trigger] dict_lines(words)[i] == decimal(i as nat)
                + " [w_"@ + decimal(i as nat) + "]"@ + words[i],
        words.len() >= 1 && (forall|i: int| 0 <= i < words.len() ==> single_line(
            #[trigger] words[i],
        )) ==> split_lines(dict_text(words)) == dict_lines(words),
{
    let lines = dict_lines(words);
    if words.len() >= 1 && (forall|i: int| 0 <= i < words.len() ==> single_line(
        #[trigger] words[i],
    )) {
        assert forall|i: int| 0 <= i < lines.len() implies single_line(#[trigger] lines[i]) by {
            reveal_strlit(" [w_");
            reveal_strlit("]");
            lemma_decimal_digits(i as nat);
            let d = decimal(i as nat);
            let line = lines[i];
            let word = words[i];
            assert(single_line(word));
            assert forall|k: int| 0 <= k < line.len() implies line[k] != '\n' by {
                if k < d.len() {
                    assert(line[k] == d[k]);
                } else if k < d.len() + 4 {
                } else if k < d.len() + 4 + d.len() {
                    assert(line[k] == d[k - d.len() - 4]);
                } else if k < d.len() + 4 + d.len() + 1 {
                } else {
                    assert(line[k] == word[k - d.len() - 4 - d.len() - 1]);
                }
            }
        }
        lemma_split_join(lines);
    }
}

} // verus!
