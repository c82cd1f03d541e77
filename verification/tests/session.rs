use phoneme_align::extract::{
    Alignment, ExtractError, PhonemeSegment, Process, ResultStatus, Sentence,
};
use phoneme_align::session::{decoder_config, AlignError, Session, Step};

fn report(status: ResultStatus, names: &[&str]) -> Vec<Process> {
    let segments = names
        .iter()
        .enumerate()
        .map(|(i, name)| PhonemeSegment {
            begin_frame: i as i32 * 10,
            end_frame: i as i32 * 10 + 9,
            name: Some(name.to_string()),
        })
        .collect();
    vec![Process {
        live: true,
        status,
        sentences: vec![Sentence { alignments: vec![Alignment::Phoneme(segments)] }],
    }]
}

fn run_all_steps(session: &mut Session) {
    while session.next_step().is_some() {
        session.advance(Ok(()));
    }
}

#[test]
fn config_names_model_grammar_and_dictionary() {
    assert_eq!(
        decoder_config("model/hmmdefs", "lab/a01.dfa", "lab/a01.dict"),
        "\n-h model/hmmdefs\n-dfa lab/a01.dfa\n-v lab/a01.dict\n-palign\n-input file\n"
    );
}

#[test]
fn config_keeps_paths_as_they_are() {
    assert_eq!(decoder_config("", "a b", "c\\d"), "\n-h \n-dfa a b\n-v c\\d\n-palign\n-input file\n");
}

#[test]
fn steps_follow_in_order() {
    assert_eq!(Step::Configure.next(), Some(Step::Construct));
    assert_eq!(Step::Construct.next(), Some(Step::InitAudio));
    assert_eq!(Step::InitAudio.next(), Some(Step::Recognize));
    assert_eq!(Step::Recognize.next(), None);
}

#[test]
fn each_step_fails_with_its_own_error() {
    let text = || "boom".to_string();
    assert_eq!(Step::Configure.fail(text()), AlignError::Config(text()));
    assert_eq!(Step::Construct.fail(text()), AlignError::Construction(text()));
    assert_eq!(Step::InitAudio.fail(text()), AlignError::AudioInit(text()));
    assert_eq!(Step::Recognize.fail(text()), AlignError::Decode(text()));
}

#[test]
fn a_pass_walks_through_all_steps() {
    let mut session = Session::new(vec![1, 2, 3]);
    assert_eq!(session.next_step(), Some(Step::Configure));
    assert_eq!(session.advance(Ok(())), Some(Step::Construct));
    assert_eq!(session.next_step(), Some(Step::Construct));
    assert_eq!(session.advance(Ok(())), Some(Step::InitAudio));
    assert_eq!(session.advance(Ok(())), Some(Step::Recognize));
    assert_eq!(session.advance(Ok(())), None);
    assert_eq!(session.next_step(), None);
    assert_eq!(session.advance(Ok(())), None);
}

#[test]
fn a_clean_pass_without_a_report_finds_nothing() {
    let mut session = Session::new(vec![1, 2, 3]);
    run_all_steps(&mut session);
    assert_eq!(session.finish(), Err(AlignError::NotFound));
}

#[test]
fn a_clean_pass_returns_the_alignment() {
    let mut session = Session::new(vec![1, 2, 3]);
    session.advance(Ok(()));
    session.advance(Ok(()));
    session.advance(Ok(()));
    assert_eq!(session.on_audio_request(2), Some(vec![1, 2]));
    assert_eq!(session.on_audio_request(2), Some(vec![3]));
    assert_eq!(session.on_audio_request(2), None);
    assert_eq!(session.on_result(&report(ResultStatus::Success, &["silB", "a", "silE"])), None);
    session.advance(Ok(()));
    assert_eq!(
        session.finish(),
        Ok(vec![
            (0, 9, "silB".to_string()),
            (10, 19, "a".to_string()),
            (20, 29, "silE".to_string()),
        ])
    );
}

#[test]
fn a_failed_step_stops_the_pass_with_its_error() {
    let failures = [
        (0, AlignError::Config("no".to_string())),
        (1, AlignError::Construction("no".to_string())),
        (2, AlignError::AudioInit("no".to_string())),
        (3, AlignError::Decode("no".to_string())),
    ];
    for (successes, error) in failures {
        let mut session = Session::new(Vec::new());
        for _ in 0..successes {
            assert!(session.advance(Ok(())).is_some());
        }
        assert_eq!(session.advance(Err("no".to_string())), None);
        assert_eq!(session.next_step(), None);
        assert_eq!(session.finish(), Err(error));
    }
}

#[test]
fn a_failed_decode_outweighs_a_captured_alignment() {
    let mut session = Session::new(Vec::new());
    session.advance(Ok(()));
    session.advance(Ok(()));
    session.advance(Ok(()));
    session.on_result(&report(ResultStatus::Success, &["a"]));
    session.advance(Err("stream broke".to_string()));
    assert_eq!(session.finish(), Err(AlignError::Decode("stream broke".to_string())));
}

#[test]
fn a_rejection_gives_a_notice_and_finds_nothing() {
    let mut session = Session::new(Vec::new());
    session.advance(Ok(()));
    session.advance(Ok(()));
    session.advance(Ok(()));
    assert_eq!(
        session.on_result(&report(ResultStatus::RejectPower, &["a"])),
        Some("<input rejected by power>")
    );
    session.advance(Ok(()));
    assert_eq!(session.finish(), Err(AlignError::NotFound));
}

#[test]
fn the_latest_alignment_is_the_one_kept() {
    let mut session = Session::new(Vec::new());
    assert_eq!(session.on_result(&report(ResultStatus::Success, &["a"])), None);
    assert_eq!(session.on_result(&report(ResultStatus::Success, &["i", "u"])), None);
    assert_eq!(
        session.on_result(&report(ResultStatus::RejectShort, &["e"])),
        Some("<input rejected by short input>")
    );
    assert_eq!(session.on_result(&Vec::new()), None);
    run_all_steps(&mut session);
    assert_eq!(session.finish(), Ok(vec![(0, 9, "i".to_string()), (10, 19, "u".to_string())]));
}

#[test]
fn a_report_that_cannot_be_read_is_the_error_of_the_pass() {
    let mut session = Session::new(Vec::new());
    let mut broken = report(ResultStatus::Success, &["a", "i"]);
    if let Alignment::Phoneme(segments) = &mut broken[0].sentences[0].alignments[0] {
        segments[1].name = None;
    }
    assert_eq!(session.on_result(&broken), None);
    assert_eq!(session.on_result(&report(ResultStatus::Success, &["a"])), None);
    run_all_steps(&mut session);
    assert_eq!(
        session.finish(),
        Err(AlignError::Extraction(ExtractError::MissingPhonemeName { segment: 1 }))
    );
}

#[test]
fn the_first_fault_is_the_one_reported() {
    let mut session = Session::new(Vec::new());
    session.advance(Err("bad config".to_string()));
    let mut broken = report(ResultStatus::Success, &["a"]);
    if let Alignment::Phoneme(segments) = &mut broken[0].sentences[0].alignments[0] {
        segments[0].name = None;
    }
    session.on_result(&broken);
    session.advance(Err("ignored".to_string()));
    assert_eq!(session.finish(), Err(AlignError::Config("bad config".to_string())));
}

#[test]
fn audio_requests_leave_the_steps_alone() {
    let mut session = Session::new(vec![9, 8, 7, 6]);
    assert_eq!(session.on_audio_request(3), Some(vec![9, 8, 7]));
    assert_eq!(session.next_step(), Some(Step::Configure));
    assert_eq!(session.on_audio_request(3), Some(vec![6]));
    assert_eq!(session.on_audio_request(3), None);
    assert_eq!(session.next_step(), Some(Step::Configure));
}

#[test]
fn errors_describe_themselves() {
    assert_eq!(AlignError::Config("bad option".to_string()).message(), "bad option");
    assert_eq!(AlignError::Construction("no model".to_string()).message(), "no model");
    assert_eq!(AlignError::AudioInit("no input".to_string()).message(), "no input");
    assert_eq!(AlignError::Decode("broken".to_string()).message(), "broken");
    assert_eq!(AlignError::NotFound.message(), "Failed to align");
    assert_eq!(
        AlignError::Extraction(ExtractError::MissingPhonemeName { segment: 0 }).message(),
        "Phoneme name missing from alignment"
    );
}
