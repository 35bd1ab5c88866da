use push_gateway::gateway::voice::{
    VoiceAction, VoiceAttachment, VoiceEvent, VoicePreparation, VoiceResult,
};

const LIMIT: u64 = 1_000;

fn begin(size: Option<u64>, configured: bool) -> (VoicePreparation<String>, VoiceAction<String>) {
    VoicePreparation::begin(VoiceAttachment { file_size: size }, LIMIT, configured)
}

fn refused(action: VoiceAction<String>) -> (&'static str, &'static str, String) {
    match action {
        VoiceAction::Finish(VoiceResult::Refused { event, reply, detail }) => (event, reply, detail),
        other => panic!("{other:?}"),
    }
}

#[test]
fn a_voice_message_is_transcribed_and_stored() {
    for size in [None, Some(LIMIT)] {
        let (mut voice, action) = begin(size, true);
        assert!(matches!(action, VoiceAction::Download));
        assert!(voice.is_awaiting(&VoiceEvent::Downloaded));
        assert!(matches!(voice.step(VoiceEvent::Downloaded), VoiceAction::Transcribe));
        match voice.step(VoiceEvent::Transcribed("hello".to_string())) {
            VoiceAction::Store(text) => assert_eq!(text, "hello"),
            other => panic!("{other:?}"),
        }
        match voice.step(VoiceEvent::Stored) {
            VoiceAction::Finish(VoiceResult::Transcript(text)) => assert_eq!(text, "hello"),
            other => panic!("{other:?}"),
        }
        assert!(!voice.is_awaiting(&VoiceEvent::Stored));
    }
}

#[test]
fn a_large_voice_message_is_refused_before_anything_else() {
    let (_, action) = begin(Some(LIMIT + 1), false);
    assert_eq!(
        refused(action),
        (
            "voice_too_large",
            "That voice message is too large. The limit is 20 MB.",
            "voice message exceeds the 20 MB limit".to_string()
        )
    );
}

#[test]
fn voice_needs_a_key() {
    let (_, action) = begin(None, false);
    let (event, reply, detail) = refused(action);
    assert_eq!(event, "voice_not_configured");
    assert!(reply.starts_with("Voice messages are unavailable."));
    assert_eq!(detail, "OpenAI API key is not configured");
}

#[test]
fn voice_failures_are_told() {
    let (mut voice, _) = begin(None, true);
    let (event, _, detail) = refused(voice.step(VoiceEvent::DownloadFailed("404".to_string())));
    assert_eq!((event, detail.as_str()), ("voice_download_failed", "voice download failed: 404"));

    let (mut voice, _) = begin(None, true);
    voice.step(VoiceEvent::Downloaded);
    let (event, reply, detail) =
        refused(voice.step(VoiceEvent::TranscriptionFailed("429".to_string())));
    assert_eq!(event, "voice_transcription_failed");
    assert_eq!(reply, "I could not transcribe that voice message. Please try again or send text.");
    assert_eq!(detail, "voice transcription failed: 429");

    let (mut voice, _) = begin(None, true);
    voice.step(VoiceEvent::Downloaded);
    voice.step(VoiceEvent::Transcribed("hello".to_string()));
    match voice.step(VoiceEvent::StoringFailed("locked".to_string())) {
        VoiceAction::Finish(VoiceResult::HistoryFailed(error)) => assert_eq!(error, "locked"),
        other => panic!("{other:?}"),
    }
}
