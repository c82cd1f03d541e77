//! The lines of a transcript.
//!
//! A transcript names each utterance and gives its text, one utterance per
//! line: `id:text`, or `id:text,reading` where the reading of the text is
//! known.

use vstd::prelude::*;
use vstd::string::*;

verus! {

/// One utterance of a transcript.
#[derive(Clone, Debug, PartialEq, Eq)]
pub struct Entry {
    /// The name of the utterance.
    pub id: String,
    /// The text that is spoken.
    pub script: String,
    /// The reading of the text, where the transcript gives one.
    pub ruby: Option<String>,
}

/// An utterance of a transcript as plain text.
pub struct EntryView {
    pub id: Seq<char>,
    pub script: Seq<char>,
    pub ruby: Option<Seq<char>>,
}

impl View for Entry {
    type V = EntryView;

    open spec fn view(&self) -> EntryView {
        EntryView {
            id: self.id@,
            script: self.script@,
            ruby: match self.ruby {
                Some(ruby) => Some(ruby@),
                None => None,
            },
        }
    }
}

/// `text` cut in two at the first `mark`, which belongs to neither part.
/// Nothing where `text` holds no `mark`.
pub open spec fn split_once(text: Seq<char>, mark: char) -> Option<(Seq<char>, Seq<char>)> {
    match text.index_of_first(mark) {
        Some(i) => Some((text.take(i), text.skip(i + 1))),
        None => None,
    }
}

/// The utterance that a line of a transcript stands for.
///
/// The name ends at the first colon; a line without a colon stands for
/// nothing. What follows the colon is the text, up to the first comma if
/// there is one, and after that comma comes the reading.
pub open spec fn entry_of(line: Seq<char>) -> Option<EntryView> {
    match split_once(line, ':') {
        Some((id, rest)) => match split_once(rest, ',') {
            Some((script, ruby)) => Some(EntryView { id, script, ruby: Some(ruby) }),
            None => Some(EntryView { id, script: rest, ruby: None }),
        },
        None => None,
    }
}

/// The position of the first `mark` in `text`, if there is one.
fn find_char(text: &str, mark: char) -> (found: Option<usize>)
    ensures
        match found {
            Some(i) => text@.index_of_first(mark) == Some(i as int),
            None => text@.index_of_first(mark) is None,
        },
{
    let len: usize = text.unicode_len();
    let mut i: usize = 0;
    while i < len
        invariant
            i <= len,
            len == text@.len(),
            forall|j: int| 0 <= j < i ==> text@[j] != mark,
        decreases len - i,
    {
        if text.get_char(i) == mark {
            proof {
                assert(text@.contains(mark));
                text@.index_of_first_ensures(mark);
                let first = text@.index_of_first(mark)->0;
                if first < i {
                    assert(text@[first] != mark);
                } else if i < first {
                    assert(text@[i as int] != mark);
                }
            }
            return Some(i);
        }
        i += 1;
    }
    proof {
        text@.index_of_first_ensures(mark);
    }
    None
}

/// Cuts `text` in two at the first `mark`.
fn cut_once<'a>(text: &'a str, mark: char) -> (parts: Option<(&'a str, &'a str)>)
    ensures
        match parts {
            Some((head, tail)) => split_once(text@, mark) == Some((head@, tail@)),
            None => split_once(text@, mark) is None,
        },
{
    match find_char(text, mark) {
        Some(i) => {
            let len: usize = text.unicode_len();
            proof {
                text@.index_of_first_ensures(mark);
            }
            let head = text.substring_char(0, i);
            let tail = text.substring_char(i + 1, len);
            assert(head@ =~= text@.take(i as int));
            assert(tail@ =~= text@.skip(i + 1));
            Some((head, tail))
        },
        None => None,
    }
}

/// Reads one line of a transcript.
///
/// Returns nothing for a line without a colon, and otherwise the utterance
/// with its name, its text and, where a comma follows the text, its reading.
pub fn parse_line(line: &str) -> (entry: Option<Entry>)
    ensures
        match entry {
            Some(entry) => entry_of(line@) == Some(entry@),
            None => entry_of(line@) is None,
        },
{
    let (id, rest) = match cut_once(line, ':') {
        Some(parts) => parts,
        None => {
            return None;
        },
    };
    match cut_once(rest, ',') {
        Some((script, ruby)) => Some(
            Entry {
                id: String::from_str(id),
                script: String::from_str(script),
                ruby: Some(String::from_str(ruby)),
            },
        ),
        None => Some(
            Entry { id: String::from_str(id), script: String::from_str(rest), ruby: None },
        ),
    }
}

impl Entry {
    /// Whether the transcript gives a reading and `generated` is not it.
    pub open spec fn differs_from(self, generated: Seq<char>) -> bool {
        match self.ruby {
            Some(ruby) => ruby@ != generated,
            None => false,
        }
    }

    /// Whether the transcript gives a reading for the utterance and the
    /// reading that was generated for its text is a different one.
    pub fn pronunciation_mismatch(&self, generated: &String) -> (mismatch: bool)
        ensures
            mismatch == self.differs_from(generated@),
    {
        match &self.ruby {
            Some(ruby) => !ruby.eq(generated),
            None => false,
        }
    }
}

} // verus!
