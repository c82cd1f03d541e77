//! From aligned frames to the lines of a label file.
//!
//! Each phoneme of an utterance has a full-context label, and the decoder
//! gives each phoneme a first and a last frame. A label line joins the two,
//! with the frames turned into times in units of 100 nanoseconds.

use crate::decimal::{push_signed_decimal, signed_decimal};
use crate::extract::Triple;
use crate::text::join_lines;
use vstd::prelude::*;
use vstd::string::*;

verus! {

/// The length of one frame in units of 100 nanoseconds.
pub const TICKS_PER_FRAME: i64 = 100_000;

/// When the phoneme at `index` begins: the start of its first frame, moved
/// by `offset` for every phoneme but the first of the utterance.
pub open spec fn begin_time(index: int, begin_frame: int, offset: int) -> int {
    begin_frame * 100_000 + if index == 0 {
        0
    } else {
        offset
    }
}

/// When a phoneme ends: the end of its last frame, moved by `offset`.
pub open spec fn end_time(end_frame: int, offset: int) -> int {
    (end_frame + 1) * 100_000 + offset
}

/// Computes the begin and the end time of the phoneme at `index`.
pub fn label_times(
    index: usize,
    begin_frame: i32,
    end_frame: i32,
    offset: i32,
) -> (times: (i64, i64))
    ensures
        times.0 == begin_time(index as int, begin_frame as int, offset as int),
        times.1 == end_time(end_frame as int, offset as int),
{
    let shift: i64 = if index == 0 {
        0
    } else {
        offset as i64
    };
    let begin: i64 = begin_frame as i64 * TICKS_PER_FRAME + shift;
    let end: i64 = (end_frame as i64 + 1) * TICKS_PER_FRAME + offset as i64;
    (begin, end)
}

/// One line of a label file.
#[derive(Clone, Debug, PartialEq, Eq)]
pub struct LabelLine {
    /// When the phoneme begins, in units of 100 nanoseconds.
    pub begin_time: i64,
    /// When the phoneme ends, in units of 100 nanoseconds.
    pub end_time: i64,
    /// The full-context label of the phoneme.
    pub label: String,
}

/// A label line with its times as integers and its label as plain text.
pub struct LabelLineView {
    pub begin_time: int,
    pub end_time: int,
    pub label: Seq<char>,
}

impl View for LabelLine {
    type V = LabelLineView;

    open spec fn view(&self) -> LabelLineView {
        LabelLineView {
            begin_time: self.begin_time as int,
            end_time: self.end_time as int,
            label: self.label@,
        }
    }
}

/// The lines of `lines`, each by its view.
pub open spec fn line_views(lines: Seq<LabelLine>) -> Seq<LabelLineView> {
    Seq::new(lines.len(), |i: int| lines[i]@)
}

/// The text of a label line: begin time, end time and label, separated by
/// single spaces.
pub open spec fn line_text(line: LabelLineView) -> Seq<char> {
    signed_decimal(line.begin_time) + " "@ + signed_decimal(line.end_time) + " "@ + line.label
}

/// The text of a label file: its lines joined by line feeds.
pub open spec fn file_text(lines: Seq<LabelLineView>) -> Seq<char> {
    join_lines(Seq::new(lines.len(), |i: int| line_text(lines[i])))
}

impl LabelLine {
    /// Writes the line as text.
    pub fn render(&self) -> (text: String)
        ensures
            text@ == line_text(self@),
    {
        let mut text = String::new();
        push_signed_decimal(&mut text, self.begin_time);
        text.append(" ");
        push_signed_decimal(&mut text, self.end_time);
        text.append(" ");
        text.append(self.label.as_str());
        assert(text@ =~= line_text(self@));
        text
    }
}

/// Writes the lines as the text of a label file.
pub fn render_labels(lines: &Vec<LabelLine>) -> (text: String)
    ensures
        text@ == file_text(line_views(lines@)),
{
    let mut text = String::new();
    let ghost texts = Seq::new(lines@.len(), |i: int| line_text(line_views(lines@)[i]));
    let mut i: usize = 0;
    proof {
        assert(join_lines(texts.take(0)) =~= Seq::<char>::empty());
    }
    while i < lines.len()
        invariant
            i <= lines.len(),
            texts == Seq::new(lines@.len(), |i: int| line_text(line_views(lines@)[i])),
            text@ == join_lines(texts.take(i as int)),
        decreases lines.len() - i,
    {
        if i > 0 {
            proof {
                reveal_strlit("\n");
            }
            text.append("\n");
        }
        let line = lines[i].render();
        text.append(line.as_str());
        proof {
            let upto = texts.take(i + 1);
            assert(upto.drop_last() =~= texts.take(i as int));
            assert(upto.last() == line@);
            if i == 0 {
                assert(join_lines(texts.take(0)) =~= Seq::<char>::empty());
            }
            assert(text@ =~= join_lines(upto));
        }
        i += 1;
    }
    proof {
        assert(texts.take(lines.len() as int) =~= texts);
    }
    text
}

/// Why labels and frames could not be joined.
#[derive(Clone, Copy, Debug, PartialEq, Eq, Structural)]
pub enum LabelError {
    /// There are not as many labels as aligned phonemes.
    LengthMismatch { labels: usize, aligned: usize },
}

/// The label lines for `labels` and the frames in `aligned`, pair by pair
/// in order. Unequal lengths are an error.
pub open spec fn label_lines_of(
    labels: Seq<Seq<char>>,
    aligned: Seq<(i32, i32, Seq<char>)>,
    offset: int,
) -> Result<Seq<LabelLineView>, LabelError> {
    if labels.len() != aligned.len() {
        Err(
            LabelError::LengthMismatch {
                labels: labels.len() as usize,
                aligned: aligned.len() as usize,
            },
        )
    } else {
        Ok(
            Seq::new(
                labels.len(),
                |i: int|
                    LabelLineView {
                        begin_time: begin_time(i, aligned[i].0 as int, offset),
                        end_time: end_time(aligned[i].1 as int, offset),
                        label: labels[i],
                    },
            ),
        )
    }
}

/// Joins each label with the frames of the phoneme at the same position.
///
/// `offset` is the correction for the decoder's analysis window, in units
/// of 100 nanoseconds. Fails when there are not as many labels as aligned
/// phonemes; nothing is cut short to make them fit.
pub fn label_lines(
    labels: &Vec<String>,
    aligned: &Vec<Triple>,
    offset: i32,
) -> (result: Result<Vec<LabelLine>, LabelError>)
    ensures
        match result {
            Ok(lines) => label_lines_of(labels.deep_view(), aligned.deep_view(), offset as int)
                == Ok::<Seq<LabelLineView>, LabelError>(line_views(lines@)),
            Err(error) => label_lines_of(labels.deep_view(), aligned.deep_view(), offset as int)
                == Err::<Seq<LabelLineView>, LabelError>(error),
        },
{
    if labels.len() != aligned.len() {
        return Err(LabelError::LengthMismatch { labels: labels.len(), aligned: aligned.len() });
    }
    let mut lines: Vec<LabelLine> = Vec::with_capacity(labels.len());
    let mut i: usize = 0;
    while i < labels.len()
        invariant
            i <= labels.len(),
            labels.len() == aligned.len(),
            lines.len() == i,
            forall|j: int|
                0 <= j < i ==> (#[trigger] lines@[j])@ == (LabelLineView {
                    begin_time: begin_time(j, aligned@[j].0 as int, offset as int),
                    end_time: end_time(aligned@[j].1 as int, offset as int),
                    label: labels@[j]@,
                }),
        decreases labels.len() - i,
    {
        let (begin, end) = label_times(i, aligned[i].0, aligned[i].1, offset);
        lines.push(LabelLine { begin_time: begin, end_time: end, label: labels[i].clone() });
        i += 1;
    }
    proof {
        let expected = label_lines_of(labels.deep_view(), aligned.deep_view(), offset as int);
        assert(expected is Ok);
        assert(line_views(lines@) =~= expected->Ok_0);
    }
    Ok(lines)
}

/// The phoneme at position `k` of `phonemes`, or `xx` where the utterance
/// has no such position.
pub open spec fn context_phoneme(phonemes: Seq<(Seq<char>, Seq<char>)>, k: int) -> Seq<char> {
    if 0 <= k < phonemes.len() {
        phonemes[k].0
    } else {
        "xx"@
    }
}

/// The full-context label of the phoneme at position `i`: the two phonemes
/// before it, the phoneme itself and the two after it, written as
/// `p2^p1-p+n1=n2`, followed by the phoneme's own context.
pub open spec fn full_context_label(phonemes: Seq<(Seq<char>, Seq<char>)>, i: int) -> Seq<char> {
    context_phoneme(phonemes, i - 2) + "^"@ + context_phoneme(phonemes, i - 1) + "-"@
        + phonemes[i].0 + "+"@ + context_phoneme(phonemes, i + 1) + "="@ + context_phoneme(
        phonemes,
        i + 2,
    ) + phonemes[i].1
}

/// The full-context labels of an utterance given as pairs of phoneme and
/// context, one label per pair and in their order.
pub open spec fn full_context_labels(phonemes: Seq<(Seq<char>, Seq<char>)>) -> Seq<Seq<char>> {
    Seq::new(phonemes.len(), |i: int| full_context_label(phonemes, i))
}

/// Calls `jpreprocess_jpcommon::overwrapping_phonemes`, which is not
/// verified here. The contract states what its source does: it returns one
/// label per pair, in order, each made of the neighbouring phonemes (`xx`
/// beyond either end), the phoneme itself and the pair's context. It
/// accepts every input.
#[verifier::external_body]
fn overlap_labels(phonemes: Vec<(String, String)>) -> (labels: Vec<String>)
    ensures
        labels.deep_view() == full_context_labels(phonemes.deep_view()),
{
    jpreprocess_jpcommon::overwrapping_phonemes(phonemes)
}

/// Turns the phonemes of an utterance and their aligned frames into label
/// lines.
///
/// `phonemes` holds each phoneme with its context, the silences at both
/// ends included. Each is given its full-context label and joined with the
/// frames at the same position in `aligned`. `offset` is the correction for
/// the decoder's analysis window, in units of 100 nanoseconds. Fails when
/// there are not as many phonemes as aligned frames.
pub fn normalize(
    phonemes: Vec<(String, String)>,
    aligned: &Vec<Triple>,
    offset: i32,
) -> (result: Result<Vec<LabelLine>, LabelError>)
    ensures
        match result {
            Ok(lines) => label_lines_of(
                full_context_labels(phonemes.deep_view()),
                aligned.deep_view(),
                offset as int,
            ) == Ok::<Seq<LabelLineView>, LabelError>(line_views(lines@)),
            Err(error) => label_lines_of(
                full_context_labels(phonemes.deep_view()),
                aligned.deep_view(),
                offset as int,
            ) == Err::<Seq<LabelLineView>, LabelError>(error),
        },
{
    let labels = overlap_labels(phonemes);
    label_lines(&labels, aligned, offset)
}

/// Label lines are a function of the labels, the frames and the offset:
/// joining the same inputs again gives the same lines, or the same error.
pub proof fn lemma_label_lines_repeatable(
    labels: Seq<Seq<char>>,
    aligned: Seq<(i32, i32, Seq<char>)>,
    offset: int,
    first: Result<Seq<LabelLineView>, LabelError>,
    second: Result<Seq<LabelLineView>, LabelError>,
)
    requires
        first == label_lines_of(labels, aligned, offset),
        second == label_lines_of(labels, aligned, offset),
    ensures
        first == second,
{
}

/// Labels and frames are joined exactly when there are as many of one as
/// of the other, and then there is one line for each pair, in order, with
/// the times of its frames. Otherwise the error names both lengths.
pub proof fn lemma_label_lines_lengths(
    labels: Seq<Seq<char>>,
    aligned: Seq<(i32, i32, Seq<char>)>,
    offset: int,
)
    ensures
        label_lines_of(labels, aligned, offset) is Ok <==> labels.len() == aligned.len(),
        label_lines_of(labels, aligned, offset) matches Ok(lines) ==> {
            &&& lines.len() == labels.len()
            &&& forall|i: int|
                0 <= i < lines.len() ==> {
                    &&& (#[trigger] lines[i]).label == labels[i]
                    &&& lines[i].begin_time == aligned[i].0 * 100_000 + if i == 0 {
                        0
                    } else {
                        offset
                    }
                    &&& lines[i].end_time == (aligned[i].1 + 1) * 100_000 + offset
                }
        },
        label_lines_of(labels, aligned, offset) matches Err(error) ==> error == (
            LabelError::LengthMismatch {
                labels: labels.len() as usize,
                aligned: aligned.len() as usize,
            }),
{
}

} // verus!
