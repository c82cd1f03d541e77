//! One decoding pass over one utterance.
//!
//! The pass is a fixed run of steps that the decoder carries out: read the
//! configuration, build the recogniser, set up the audio input, recognise.
//! While it recognises, the decoder asks for audio and reports results. A
//! [`Session`] decides what comes next, feeds the audio, keeps what the
//! reports yield, and says at the end how the pass went.

use crate::audio::{left_after, supplied, AudioCursor};
use crate::extract::{
    extract, notice_of, reading, ExtractError, Extraction, ExtractionView, Process, Triple,
};
use vstd::prelude::*;
use vstd::string::*;

verus! {

/// The configuration text for a decoding pass: the acoustic model, the
/// grammar, the dictionary, phoneme alignment, and input from a stream.
pub open spec fn config_text(
    model_path: Seq<char>,
    dfa_path: Seq<char>,
    dict_path: Seq<char>,
) -> Seq<char> {
    "\n-h "@ + model_path + "\n-dfa "@ + dfa_path + "\n-v "@ + dict_path
        + "\n-palign\n-input file\n"@
}

/// Writes the decoder's configuration for aligning against one grammar.
pub fn decoder_config(model_path: &str, dfa_path: &str, dict_path: &str) -> (config: String)
    ensures
        config@ == config_text(model_path@, dfa_path@, dict_path@),
{
    let mut config = String::new();
    config.append("\n-h ");
    config.append(model_path);
    config.append("\n-dfa ");
    config.append(dfa_path);
    config.append("\n-v ");
    config.append(dict_path);
    config.append("\n-palign\n-input file\n");
    assert(config@ =~= config_text(model_path@, dfa_path@, dict_path@));
    config
}

/// A step of the pass that the decoder carries out.
#[derive(Clone, Copy, Debug, PartialEq, Eq, Structural)]
pub enum Step {
    /// Read the configuration text.
    Configure,
    /// Build the recogniser from the configuration.
    Construct,
    /// Register for results, set up the audio input and install the source
    /// of samples.
    InitAudio,
    /// Recognise until the audio ends.
    Recognize,
}

/// Why a pass gave no alignment.
#[derive(Clone, Debug, PartialEq, Eq)]
pub enum AlignError {
    /// The configuration could not be read.
    Config(String),
    /// The recogniser could not be built.
    Construction(String),
    /// The audio input could not be set up.
    AudioInit(String),
    /// Recognition failed.
    Decode(String),
    /// A report held an alignment that could not be read.
    Extraction(ExtractError),
    /// The pass ran cleanly but no report held an alignment.
    NotFound,
}

impl Step {
    /// The step that follows this one, if any.
    pub open spec fn following(self) -> Option<Step> {
        match self {
            Step::Configure => Some(Step::Construct),
            Step::Construct => Some(Step::InitAudio),
            Step::InitAudio => Some(Step::Recognize),
            Step::Recognize => None,
        }
    }

    /// The error that stands for a failure of this step.
    pub open spec fn failure(self, message: String) -> AlignError {
        match self {
            Step::Configure => AlignError::Config(message),
            Step::Construct => AlignError::Construction(message),
            Step::InitAudio => AlignError::AudioInit(message),
            Step::Recognize => AlignError::Decode(message),
        }
    }

    /// The step that follows this one, if any.
    pub fn next(&self) -> (next: Option<Step>)
        ensures
            next == self.following(),
    {
        match self {
            Step::Configure => Some(Step::Construct),
            Step::Construct => Some(Step::InitAudio),
            Step::InitAudio => Some(Step::Recognize),
            Step::Recognize => None,
        }
    }

    /// The error for a failure of this step, with the decoder's message.
    pub fn fail(&self, message: String) -> (error: AlignError)
        ensures
            error == self.failure(message),
    {
        match self {
            Step::Configure => AlignError::Config(message),
            Step::Construct => AlignError::Construction(message),
            Step::InitAudio => AlignError::AudioInit(message),
            Step::Recognize => AlignError::Decode(message),
        }
    }
}

impl AlignError {
    /// The text that describes the error.
    pub open spec fn message_text(self) -> Seq<char> {
        match self {
            AlignError::Config(message) => message@,
            AlignError::Construction(message) => message@,
            AlignError::AudioInit(message) => message@,
            AlignError::Decode(message) => message@,
            AlignError::Extraction(_) => "Phoneme name missing from alignment"@,
            AlignError::NotFound => "Failed to align"@,
        }
    }

    /// The text that describes the error: the decoder's own message for a
    /// failed step, a fixed line otherwise.
    pub fn message(&self) -> (text: String)
        ensures
            text@ == self.message_text(),
    {
        match self {
            AlignError::Config(message) => message.clone(),
            AlignError::Construction(message) => message.clone(),
            AlignError::AudioInit(message) => message.clone(),
            AlignError::Decode(message) => message.clone(),
            AlignError::Extraction(_) => String::from_str("Phoneme name missing from alignment"),
            AlignError::NotFound => String::from_str("Failed to align"),
        }
    }
}

/// The state of one decoding pass.
pub struct Session {
    pending: Option<Step>,
    fault: Option<AlignError>,
    captured: Option<Vec<Triple>>,
    audio: AudioCursor,
}

/// The state of a pass as plain values.
pub struct SessionView {
    /// The step that the decoder is to carry out next, if any is left.
    pub pending: Option<Step>,
    /// The first fault of the pass, if there was one.
    pub fault: Option<AlignError>,
    /// The alignment from the latest report that held one.
    pub captured: Option<Seq<(i32, i32, Seq<char>)>>,
    /// The samples that the decoder has not been given yet.
    pub audio: Seq<i16>,
}

impl View for Session {
    type V = SessionView;

    closed spec fn view(&self) -> SessionView {
        SessionView {
            pending: self.pending,
            fault: self.fault,
            captured: match self.captured {
                Some(triples) => Some(triples.deep_view()),
                None => None,
            },
            audio: self.audio@,
        }
    }
}

impl SessionView {
    /// A pass over `samples` that has not begun.
    pub open spec fn fresh(samples: Seq<i16>) -> SessionView {
        SessionView { pending: Some(Step::Configure), fault: None, captured: None, audio: samples }
    }

    /// The pass with `error` as its fault, unless it has one already.
    pub open spec fn with_fault(self, error: AlignError) -> SessionView {
        if self.fault is Some {
            self
        } else {
            SessionView { fault: Some(error), ..self }
        }
    }

    /// The pass after the pending step has ended with `outcome`.
    ///
    /// After a success the following step is pending. After a failure no
    /// step is pending and the failure is the fault of the pass, unless it
    /// had one before. With no step pending nothing changes.
    pub open spec fn advanced(self, outcome: Result<(), String>) -> SessionView {
        match (self.pending, outcome) {
            (Some(done), Ok(_)) => SessionView { pending: done.following(), ..self },
            (Some(failed), Err(message)) => SessionView { pending: None, ..self }.with_fault(
                failed.failure(message),
            ),
            (None, _) => self,
        }
    }

    /// The pass after a report of the decoder that reads as `reading`.
    ///
    /// An alignment replaces what was captured before. A report that cannot
    /// be read is the fault of the pass, unless it had one before. Any other
    /// report changes nothing.
    pub open spec fn reported(self, reading: Result<ExtractionView, ExtractError>) -> SessionView {
        match reading {
            Ok(ExtractionView::Aligned(triples)) => SessionView {
                captured: Some(triples),
                ..self
            },
            Ok(_) => self,
            Err(error) => self.with_fault(AlignError::Extraction(error)),
        }
    }

    /// The pass after a request for at most `max_len` samples.
    pub open spec fn requested(self, max_len: nat) -> SessionView {
        SessionView { audio: left_after(self.audio, max_len), ..self }
    }

    /// How the pass ends: with its fault if it has one, else with the
    /// alignment that was captured, else with the news that none was found.
    pub open spec fn conclusion(self) -> Result<Seq<(i32, i32, Seq<char>)>, AlignError> {
        match self.fault {
            Some(error) => Err(error),
            None => match self.captured {
                Some(triples) => Ok(triples),
                None => Err(AlignError::NotFound),
            },
        }
    }
}

impl Session {
    /// A pass over `samples` that has not begun: the first step is pending,
    /// there is no fault and nothing is captured.
    pub fn new(samples: Vec<i16>) -> (session: Session)
        ensures
            session@ == SessionView::fresh(samples@),
    {
        Session {
            pending: Some(Step::Configure),
            fault: None,
            captured: None,
            audio: AudioCursor::new(samples),
        }
    }

    /// The step that the decoder is to carry out next, if any is left.
    pub fn next_step(&self) -> (step: Option<Step>)
        ensures
            step == self@.pending,
    {
        self.pending
    }

    /// Takes note of how the pending step went and returns the step to carry
    /// out next.
    pub fn advance(&mut self, outcome: Result<(), String>) -> (step: Option<Step>)
        ensures
            final(self)@ == old(self)@.advanced(outcome),
            step == final(self)@.pending,
    {
        match self.pending {
            Some(step) => {
                match outcome {
                    Ok(_) => {
                        self.pending = step.next();
                    },
                    Err(message) => {
                        self.pending = None;
                        if self.fault.is_none() {
                            self.fault = Some(step.fail(message));
                        }
                    },
                }
            },
            None => {},
        }
        self.pending
    }

    /// Answers the decoder's request for at most `max_len` samples.
    ///
    /// Returns the end signal `None` exactly when no samples are left, and
    /// otherwise the next samples in order, as many as are left up to
    /// `max_len`. Nothing else about the pass changes.
    pub fn on_audio_request(&mut self, max_len: usize) -> (chunk: Option<Vec<i16>>)
        ensures
            final(self)@ == old(self)@.requested(max_len as nat),
            match chunk {
                Some(samples) => supplied(old(self)@.audio, max_len as nat) == Some(samples@),
                None => supplied(old(self)@.audio, max_len as nat) is None,
            },
    {
        let chunk = self.audio.next_chunk(max_len);
        proof {
            if chunk is None {
                assert(left_after(old(self)@.audio, max_len as nat) =~= old(self)@.audio);
            }
        }
        chunk
    }

    /// Takes in the decoder's report on its recognition processes and
    /// returns the notice to show, if the input was rejected.
    pub fn on_result(&mut self, processes: &Vec<Process>) -> (notice: Option<&'static str>)
        ensures
            final(self)@ == old(self)@.reported(reading(processes@)),
            match notice {
                Some(text) => notice_of(reading(processes@)) == Some(text@),
                None => notice_of(reading(processes@)) is None,
            },
    {
        match extract(processes) {
            Ok(extraction) => {
                let notice = extraction.notice();
                match extraction {
                    Extraction::Aligned(triples) => {
                        self.captured = Some(triples);
                    },
                    _ => {},
                }
                notice
            },
            Err(error) => {
                if self.fault.is_none() {
                    self.fault = Some(AlignError::Extraction(error));
                }
                None
            },
        }
    }

    /// Ends the pass and says how it went.
    ///
    /// The first fault of the pass is its error. Without a fault the result
    /// is the captured alignment, and the error `NotFound` where no report
    /// held one.
    pub fn finish(self) -> (result: Result<Vec<Triple>, AlignError>)
        ensures
            match result {
                Ok(triples) => self@.conclusion() == Ok::<Seq<(i32, i32, Seq<char>)>, AlignError>(
                    triples.deep_view(),
                ),
                Err(error) => self@.conclusion() == Err::<Seq<(i32, i32, Seq<char>)>, AlignError>(
                    error,
                ),
            },
    {
        match self.fault {
            Some(error) => Err(error),
            None => match self.captured {
                Some(triples) => Ok(triples),
                None => Err(AlignError::NotFound),
            },
        }
    }
}

/// A failure of one step is never taken for a failure of another, nor for
/// a pass that found nothing or a report that could not be read.
pub proof fn lemma_failures_are_distinct(
    one: Step,
    other: Step,
    message: String,
    other_message: String,
    unreadable: ExtractError,
)
    ensures
        one != other ==> one.failure(message) != other.failure(other_message),
        one.failure(message) != AlignError::NotFound,
        one.failure(message) != AlignError::Extraction(unreadable),
        AlignError::Extraction(unreadable) != AlignError::NotFound,
{
}

/// A pass whose steps all succeed takes them in order and then has none
/// left. It ends with the captured alignment, or with `NotFound` where no
/// report held one.
pub proof fn lemma_clean_pass(start: SessionView)
    requires
        start.pending == Some(Step::Configure),
        start.fault is None,
    ensures
        ({
            let configured = start.advanced(Ok(()));
            let constructed = configured.advanced(Ok(()));
            let ready = constructed.advanced(Ok(()));
            let done = ready.advanced(Ok(()));
            &&& configured.pending == Some(Step::Construct)
            &&& constructed.pending == Some(Step::InitAudio)
            &&& ready.pending == Some(Step::Recognize)
            &&& done.pending is None
            &&& done.fault is None
            &&& done.captured == start.captured
            &&& done.conclusion() == match start.captured {
                Some(triples) => Ok::<Seq<(i32, i32, Seq<char>)>, AlignError>(triples),
                None => Err(AlignError::NotFound),
            }
        }),
{
}

/// The first fault of a pass is its error: whatever happens afterwards, the
/// pass keeps that fault and ends with it.
pub proof fn lemma_first_fault_stays(
    pass: SessionView,
    outcome: Result<(), String>,
    reading: Result<ExtractionView, ExtractError>,
    max_len: nat,
)
    requires
        pass.fault is Some,
    ensures
        pass.advanced(outcome).fault == pass.fault,
        pass.reported(reading).fault == pass.fault,
        pass.requested(max_len).fault == pass.fault,
        pass.conclusion() == Err::<Seq<(i32, i32, Seq<char>)>, AlignError>(pass.fault->0),
{
}

/// A step that fails in a pass without a fault ends the pass with the
/// error of that step, and no step is left.
pub proof fn lemma_failed_step_ends_pass(pass: SessionView, message: String)
    requires
        pass.pending is Some,
        pass.fault is None,
    ensures
        pass.advanced(Err(message)).pending is None,
        pass.advanced(Err(message)).conclusion() == Err::<
            Seq<(i32, i32, Seq<char>)>,
            AlignError,
        >(pass.pending->0.failure(message)),
{
}

} // verus!
