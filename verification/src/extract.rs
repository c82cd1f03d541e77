//! Reading an alignment out of what the decoder reports.
//!
//! When a decoding pass ends, the decoder reports on each of its recognition
//! processes. The first live process decides: a rejected input gives nothing
//! but a notice, an accepted one gives the frames of each phoneme, taken
//! from the first alignment record of the first sentence hypothesis.

use vstd::prelude::*;

verus! {

/// A phoneme with the first and the last frame that the decoder gave it.
pub type Triple = (i32, i32, String);

/// How a recognition process ended.
#[derive(Clone, Copy, Debug, PartialEq, Eq, Structural)]
pub enum ResultStatus {
    /// The input was rejected for its power.
    RejectPower,
    /// Recognition was terminated by request.
    Terminate,
    /// The input was rejected because the result held silence only.
    OnlySilence,
    /// The input was rejected by the acoustic model.
    RejectGmm,
    /// The input was rejected as too short.
    RejectShort,
    /// The input was rejected as too long.
    RejectLong,
    /// The search found no result.
    Fail,
    /// The input was recognised.
    Success,
}

impl ResultStatus {
    /// Whether the status stands for a rejected input or a failed search.
    pub open spec fn is_rejection(self) -> bool {
        !(self is Success)
    }

    /// The notice for a rejection, and nothing for a success.
    pub open spec fn notice_text(self) -> Option<Seq<char>> {
        match self {
            ResultStatus::RejectPower => Some("<input rejected by power>"@),
            ResultStatus::Terminate => Some("<input teminated by request>"@),
            ResultStatus::OnlySilence => Some(
                "<input rejected by decoder (silence input result)>"@,
            ),
            ResultStatus::RejectGmm => Some("<input rejected by GMM>"@),
            ResultStatus::RejectShort => Some("<input rejected by short input>"@),
            ResultStatus::RejectLong => Some("<input rejected by long input>"@),
            ResultStatus::Fail => Some("<search failed>"@),
            ResultStatus::Success => None,
        }
    }

    /// Whether the status stands for a rejected input or a failed search.
    pub fn rejected(&self) -> (rejected: bool)
        ensures
            rejected == self.is_rejection(),
    {
        match self {
            ResultStatus::Success => false,
            _ => true,
        }
    }

    /// The notice to show for this status: one line for each kind of
    /// rejection, nothing for a success.
    pub fn notice(&self) -> (notice: Option<&'static str>)
        ensures
            match notice {
                Some(text) => self.notice_text() == Some(text@),
                None => self.notice_text() is None,
            },
            notice is Some <==> self.is_rejection(),
    {
        match self {
            ResultStatus::RejectPower => Some("<input rejected by power>"),
            ResultStatus::Terminate => Some("<input teminated by request>"),
            ResultStatus::OnlySilence => Some(
                "<input rejected by decoder (silence input result)>",
            ),
            ResultStatus::RejectGmm => Some("<input rejected by GMM>"),
            ResultStatus::RejectShort => Some("<input rejected by short input>"),
            ResultStatus::RejectLong => Some("<input rejected by long input>"),
            ResultStatus::Fail => Some("<search failed>"),
            ResultStatus::Success => None,
        }
    }
}

/// One stretch of frames in a phoneme-level alignment.
#[derive(Clone, Debug, PartialEq, Eq)]
pub struct PhonemeSegment {
    /// The first frame of the stretch.
    pub begin_frame: i32,
    /// The last frame of the stretch.
    pub end_frame: i32,
    /// The name of the phoneme, where the decoder knows one.
    pub name: Option<String>,
}

/// An alignment record of a sentence hypothesis.
#[derive(Clone, Debug, PartialEq, Eq)]
pub enum Alignment {
    /// An alignment by phonemes, with its segments in the order of time.
    Phoneme(Vec<PhonemeSegment>),
    /// An alignment by any other unit.
    Other,
}

/// A sentence hypothesis with its alignment records.
#[derive(Clone, Debug, PartialEq, Eq)]
pub struct Sentence {
    /// The alignment records, in the decoder's order.
    pub alignments: Vec<Alignment>,
}

/// What the decoder reports on one recognition process.
#[derive(Clone, Debug, PartialEq, Eq)]
pub struct Process {
    /// Whether the process is live.
    pub live: bool,
    /// How the process ended.
    pub status: ResultStatus,
    /// The sentence hypotheses, best first.
    pub sentences: Vec<Sentence>,
}

/// What a report of the decoder yields.
#[derive(Clone, Debug, PartialEq, Eq)]
pub enum Extraction {
    /// No process is live: there is nothing to read.
    Idle,
    /// The input was rejected or the search failed, with the status that
    /// says how.
    Rejected(ResultStatus),
    /// The input was recognised, but there is no sentence hypothesis, or its
    /// first hypothesis has no alignment record, or the first record is not
    /// by phonemes.
    Unaligned,
    /// The phonemes with their frames, in the order of time.
    Aligned(Vec<Triple>),
}

/// Why an alignment could not be read.
#[derive(Clone, Copy, Debug, PartialEq, Eq, Structural)]
pub enum ExtractError {
    /// The segment at this index of a phoneme-level alignment has no name.
    MissingPhonemeName { segment: usize },
}

/// What a report of the decoder yields, with the names as plain text.
pub enum ExtractionView {
    /// No process is live.
    Idle,
    /// The input was rejected or the search failed.
    Rejected(ResultStatus),
    /// The input was recognised, but no phoneme-level alignment is on offer.
    Unaligned,
    /// The phonemes with their frames, in the order of time.
    Aligned(Seq<(i32, i32, Seq<char>)>),
}

impl View for Extraction {
    type V = ExtractionView;

    open spec fn view(&self) -> ExtractionView {
        match self {
            Extraction::Idle => ExtractionView::Idle,
            Extraction::Rejected(status) => ExtractionView::Rejected(*status),
            Extraction::Unaligned => ExtractionView::Unaligned,
            Extraction::Aligned(triples) => ExtractionView::Aligned(triples.deep_view()),
        }
    }
}

/// Whether `i` is the index of the first live process.
pub open spec fn is_first_live(processes: Seq<Process>, i: int) -> bool {
    &&& 0 <= i < processes.len()
    &&& processes[i].live
    &&& forall|j: int| 0 <= j < i ==> !(#[trigger] processes[j]).live
}

/// The index of the first live process, if any process is live.
pub open spec fn first_live(processes: Seq<Process>) -> Option<int> {
    if exists|i: int| is_first_live(processes, i) {
        Some(choose|i: int| is_first_live(processes, i))
    } else {
        None
    }
}

/// The first alignment record of the first sentence hypothesis, if there is
/// one.
pub open spec fn first_alignment(process: Process) -> Option<Alignment> {
    if process.sentences@.len() == 0 {
        None
    } else if process.sentences@[0].alignments@.len() == 0 {
        None
    } else {
        Some(process.sentences@[0].alignments@[0])
    }
}

/// Whether `i` is the index of the first segment without a name.
pub open spec fn is_first_unnamed(segments: Seq<PhonemeSegment>, i: int) -> bool {
    &&& 0 <= i < segments.len()
    &&& segments[i].name is None
    &&& forall|j: int| 0 <= j < i ==> (#[trigger] segments[j]).name is Some
}

/// The index of the first segment without a name, if any segment has none.
pub open spec fn first_unnamed(segments: Seq<PhonemeSegment>) -> Option<int> {
    if exists|i: int| is_first_unnamed(segments, i) {
        Some(choose|i: int| is_first_unnamed(segments, i))
    } else {
        None
    }
}

/// The segments as triples of first frame, last frame and phoneme name, in
/// the same order.
pub open spec fn triples_of(segments: Seq<PhonemeSegment>) -> Seq<(i32, i32, Seq<char>)> {
    Seq::new(
        segments.len(),
        |i: int| (segments[i].begin_frame, segments[i].end_frame, segments[i].name->0@),
    )
}

/// What a phoneme-level alignment yields: its triples when every segment
/// has a name, otherwise the index of the first segment that has none.
pub open spec fn triples_or_error(
    segments: Seq<PhonemeSegment>,
) -> Result<Seq<(i32, i32, Seq<char>)>, ExtractError> {
    match first_unnamed(segments) {
        Some(i) => Err(ExtractError::MissingPhonemeName { segment: i as usize }),
        None => Ok(triples_of(segments)),
    }
}

/// What the report on one live process yields.
pub open spec fn reading_of(process: Process) -> Result<ExtractionView, ExtractError> {
    if process.status.is_rejection() {
        Ok(ExtractionView::Rejected(process.status))
    } else {
        match first_alignment(process) {
            Some(Alignment::Phoneme(segments)) => match triples_or_error(segments@) {
                Ok(triples) => Ok(ExtractionView::Aligned(triples)),
                Err(error) => Err(error),
            },
            _ => Ok(ExtractionView::Unaligned),
        }
    }
}

/// What the report on all processes yields: the first live process decides,
/// and without one there is nothing to read.
pub open spec fn reading(processes: Seq<Process>) -> Result<ExtractionView, ExtractError> {
    match first_live(processes) {
        Some(i) => reading_of(processes[i]),
        None => Ok(ExtractionView::Idle),
    }
}

/// The first live process is the live process with no live one before it,
/// and there is none exactly when no process is live.
pub proof fn lemma_first_live(processes: Seq<Process>)
    ensures
        forall|i: int| first_live(processes) == Some(i) <==> is_first_live(processes, i),
        first_live(processes) is None <==> forall|j: int|
            0 <= j < processes.len() ==> !(#[trigger] processes[j]).live,
{
    assert forall|i: int| is_first_live(processes, i) implies first_live(processes) == Some(
        i,
    ) by {
        let chosen = choose|k: int| is_first_live(processes, k);
        if chosen < i {
            assert(!processes[chosen].live);
        } else if i < chosen {
            assert(!processes[i].live);
        }
    }
    if forall|j: int| 0 <= j < processes.len() ==> !(#[trigger] processes[j]).live {
        if first_live(processes) is Some {
            let chosen = choose|k: int| is_first_live(processes, k);
            assert(!processes[chosen].live);
        }
    } else {
        lemma_some_first_live(processes, processes.len() as int);
    }
}

/// Among the first `upto` processes, either none is live or one is the first
/// live process.
proof fn lemma_some_first_live(processes: Seq<Process>, upto: int)
    requires
        0 <= upto <= processes.len(),
    ensures
        (forall|j: int| 0 <= j < upto ==> !(#[trigger] processes[j]).live) || exists|i: int|
            is_first_live(processes, i),
    decreases upto,
{
    if upto > 0 {
        lemma_some_first_live(processes, upto - 1);
        if forall|j: int| 0 <= j < upto - 1 ==> !(#[trigger] processes[j]).live {
            if processes[upto - 1].live {
                assert(is_first_live(processes, upto - 1));
            }
        }
    }
}

/// The first unnamed segment is the unnamed segment with no unnamed one
/// before it, and there is none exactly when every segment has a name.
pub proof fn lemma_first_unnamed(segments: Seq<PhonemeSegment>)
    ensures
        forall|i: int| first_unnamed(segments) == Some(i) <==> is_first_unnamed(segments, i),
        first_unnamed(segments) is None <==> forall|j: int|
            0 <= j < segments.len() ==> (#[trigger] segments[j]).name is Some,
{
    assert forall|i: int| is_first_unnamed(segments, i) implies first_unnamed(segments) == Some(
        i,
    ) by {
        let chosen = choose|k: int| is_first_unnamed(segments, k);
        if chosen < i {
            assert(segments[chosen].name is Some);
        } else if i < chosen {
            assert(segments[i].name is Some);
        }
    }
    if forall|j: int| 0 <= j < segments.len() ==> (#[trigger] segments[j]).name is Some {
        if first_unnamed(segments) is Some {
            let chosen = choose|k: int| is_first_unnamed(segments, k);
            assert(segments[chosen].name is Some);
        }
    } else {
        lemma_some_first_unnamed(segments, segments.len() as int);
    }
}

/// Among the first `upto` segments, either all have a name or one is the
/// first without.
proof fn lemma_some_first_unnamed(segments: Seq<PhonemeSegment>, upto: int)
    requires
        0 <= upto <= segments.len(),
    ensures
        (forall|j: int| 0 <= j < upto ==> (#[trigger] segments[j]).name is Some) || exists|i: int|
            is_first_unnamed(segments, i),
    decreases upto,
{
    if upto > 0 {
        lemma_some_first_unnamed(segments, upto - 1);
        if forall|j: int| 0 <= j < upto - 1 ==> (#[trigger] segments[j]).name is Some {
            if segments[upto - 1].name is None {
                assert(is_first_unnamed(segments, upto - 1));
            }
        }
    }
}

/// The index of the first live process, if any process is live.
pub fn find_live(processes: &Vec<Process>) -> (found: Option<usize>)
    ensures
        match found {
            Some(i) => first_live(processes@) == Some(i as int),
            None => first_live(processes@) is None,
        },
{
    proof {
        lemma_first_live(processes@);
    }
    let mut i: usize = 0;
    while i < processes.len()
        invariant
            i <= processes.len(),
            forall|j: int| 0 <= j < i ==> !(#[trigger] processes@[j]).live,
        decreases processes.len() - i,
    {
        if processes[i].live {
            assert(is_first_live(processes@, i as int));
            return Some(i);
        }
        i += 1;
    }
    None
}

/// Turns the segments of a phoneme-level alignment into triples.
///
/// Succeeds exactly when every segment has a name, with one triple per
/// segment in the same order. Otherwise fails with the index of the first
/// segment that has none.
pub fn collect_triples(
    segments: &Vec<PhonemeSegment>,
) -> (result: Result<Vec<Triple>, ExtractError>)
    ensures
        match result {
            Ok(triples) => triples_or_error(segments@) == Ok::<
                Seq<(i32, i32, Seq<char>)>,
                ExtractError,
            >(triples.deep_view()),
            Err(error) => triples_or_error(segments@) == Err::<
                Seq<(i32, i32, Seq<char>)>,
                ExtractError,
            >(error),
        },
{
    proof {
        lemma_first_unnamed(segments@);
    }
    let mut triples: Vec<Triple> = Vec::with_capacity(segments.len());
    let mut i: usize = 0;
    while i < segments.len()
        invariant
            i <= segments.len(),
            triples.len() == i,
            forall|j: int| 0 <= j < i ==> (#[trigger] segments@[j]).name is Some,
            forall|j: int|
                0 <= j < i ==> (#[trigger] triples@[j]).0 == segments@[j].begin_frame
                    && triples@[j].1 == segments@[j].end_frame && triples@[j].2@
                    == segments@[j].name->0@,
        decreases segments.len() - i,
    {
        let segment = &segments[i];
        match &segment.name {
            Some(name) => {
                triples.push((segment.begin_frame, segment.end_frame, name.clone()));
            },
            None => {
                assert(is_first_unnamed(segments@, i as int));
                return Err(ExtractError::MissingPhonemeName { segment: i });
            },
        }
        i += 1;
    }
    assert(triples.deep_view() =~= triples_of(segments@));
    Ok(triples)
}

/// Reads the decoder's report on its recognition processes.
///
/// With no live process there is nothing to read. Otherwise the first live
/// process decides. If its status is a rejection or a failure, the result
/// carries that status and no alignment. If not, the result is the
/// alignment held by the first alignment record of the first sentence
/// hypothesis, provided there is such a record and it is by phonemes. A
/// phoneme-level record with a segment that has no name is an error.
pub fn extract(processes: &Vec<Process>) -> (result: Result<Extraction, ExtractError>)
    ensures
        match result {
            Ok(extraction) => reading(processes@) == Ok::<ExtractionView, ExtractError>(
                extraction@,
            ),
            Err(error) => reading(processes@) == Err::<ExtractionView, ExtractError>(error),
        },
{
    let index: usize = match find_live(processes) {
        Some(index) => index,
        None => {
            return Ok(Extraction::Idle);
        },
    };
    let process = &processes[index];
    if process.status.rejected() {
        return Ok(Extraction::Rejected(process.status));
    }
    if process.sentences.len() == 0 {
        return Ok(Extraction::Unaligned);
    }
    let sentence = &process.sentences[0];
    if sentence.alignments.len() == 0 {
        return Ok(Extraction::Unaligned);
    }
    match &sentence.alignments[0] {
        Alignment::Phoneme(segments) => {
            match collect_triples(segments) {
                Ok(triples) => Ok(Extraction::Aligned(triples)),
                Err(error) => Err(error),
            }
        },
        Alignment::Other => Ok(Extraction::Unaligned),
    }
}

/// A rejection by the first live process yields no alignment and exactly
/// the notice of its status, whatever else the report holds.
pub proof fn lemma_rejection_yields_notice(processes: Seq<Process>, i: int)
    requires
        is_first_live(processes, i),
        processes[i].status.is_rejection(),
    ensures
        reading(processes) == Ok::<ExtractionView, ExtractError>(
            ExtractionView::Rejected(processes[i].status),
        ),
        notice_of(reading(processes)) == processes[i].status.notice_text(),
        notice_of(reading(processes)) is Some,
{
    lemma_first_live(processes);
}

/// A phoneme-level alignment whose segments all have names yields one
/// triple per segment, in the order of the segments.
pub proof fn lemma_alignment_keeps_order(
    processes: Seq<Process>,
    i: int,
    segments: Seq<PhonemeSegment>,
)
    requires
        is_first_live(processes, i),
        !processes[i].status.is_rejection(),
        first_alignment(processes[i]) matches Some(Alignment::Phoneme(found)) && found@
            == segments,
        forall|k: int| 0 <= k < segments.len() ==> (#[trigger] segments[k]).name is Some,
    ensures
        reading(processes) matches Ok(ExtractionView::Aligned(triples)) && {
            &&& triples.len() == segments.len()
            &&& forall|k: int|
                0 <= k < segments.len() ==> #[trigger] triples[k] == (
                    segments[k].begin_frame,
                    segments[k].end_frame,
                    segments[k].name->0@,
                )
        },
        notice_of(reading(processes)) is None,
{
    lemma_first_live(processes);
    lemma_first_unnamed(segments);
}

impl ExtractionView {
    /// The notice to show, where the input was rejected.
    pub open spec fn notice_text(self) -> Option<Seq<char>> {
        match self {
            ExtractionView::Rejected(status) => status.notice_text(),
            _ => None,
        }
    }
}

/// The notice to show for a report: the one for its rejection, and none
/// where the report holds no rejection or cannot be read.
pub open spec fn notice_of(reading: Result<ExtractionView, ExtractError>) -> Option<Seq<char>> {
    match reading {
        Ok(extraction) => extraction.notice_text(),
        Err(_) => None,
    }
}

impl Extraction {
    /// The notice to show for this result: one line where the input was
    /// rejected, nothing otherwise.
    pub fn notice(&self) -> (notice: Option<&'static str>)
        ensures
            match notice {
                Some(text) => self@.notice_text() == Some(text@),
                None => self@.notice_text() is None,
            },
    {
        match self {
            Extraction::Rejected(status) => status.notice(),
            _ => None,
        }
    }

    /// Hands out the alignment, where the report held one.
    pub fn into_alignment(self) -> (alignment: Option<Vec<Triple>>)
        ensures
            match alignment {
                Some(triples) => self@ == ExtractionView::Aligned(triples.deep_view()),
                None => !(self@ is Aligned),
            },
    {
        match self {
            Extraction::Aligned(triples) => Some(triples),
            _ => None,
        }
    }
}

} // verus!
