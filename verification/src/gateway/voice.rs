//! Turning a voice message into text before it is handled like any other message.

use vstd::prelude::*;

verus! {

/// A voice message that came with a message.
#[derive(Debug, Clone, Copy, PartialEq, Eq, Structural)]
pub struct VoiceAttachment {
    /// Its size in bytes, where the channel gives one.
    pub file_size: Option<u64>,
}

/// What became of a voice message. The text type `S` is `String` in the program and a sequence of
/// characters in contracts.
#[derive(Debug)]
pub enum VoiceResult<S> {
    /// What was said; the history holds it too.
    Transcript(S),
    /// The sender is told why it could not be used.
    Refused { event: &'static str, reply: &'static str, detail: S },
    /// The history could not store the transcript.
    HistoryFailed(S),
}

impl View for VoiceResult<String> {
    type V = VoiceResult<Seq<char>>;

    open spec fn view(&self) -> VoiceResult<Seq<char>> {
        match self {
            VoiceResult::Transcript(text) => VoiceResult::Transcript(text@),
            VoiceResult::Refused { event, reply, detail } => VoiceResult::Refused {
                event: *event,
                reply: *reply,
                detail: detail@,
            },
            VoiceResult::HistoryFailed(error) => VoiceResult::HistoryFailed(error@),
        }
    }
}

/// What the driver does next.
#[derive(Debug)]
pub enum VoiceAction<S> {
    Download,
    /// Transcribe the downloaded clip.
    Transcribe,
    /// Replace the content of the stored message by the transcript.
    Store(S),
    Finish(VoiceResult<S>),
}

impl View for VoiceAction<String> {
    type V = VoiceAction<Seq<char>>;

    open spec fn view(&self) -> VoiceAction<Seq<char>> {
        match self {
            VoiceAction::Download => VoiceAction::Download,
            VoiceAction::Transcribe => VoiceAction::Transcribe,
            VoiceAction::Store(text) => VoiceAction::Store(text@),
            VoiceAction::Finish(result) => VoiceAction::Finish(result@),
        }
    }
}

/// What the driver reports; errors come as text.
#[derive(Debug)]
pub enum VoiceEvent<S> {
    Downloaded,
    DownloadFailed(S),
    Transcribed(S),
    TranscriptionFailed(S),
    Stored,
    StoringFailed(S),
}

impl View for VoiceEvent<String> {
    type V = VoiceEvent<Seq<char>>;

    open spec fn view(&self) -> VoiceEvent<Seq<char>> {
        match self {
            VoiceEvent::Downloaded => VoiceEvent::Downloaded,
            VoiceEvent::DownloadFailed(error) => VoiceEvent::DownloadFailed(error@),
            VoiceEvent::Transcribed(text) => VoiceEvent::Transcribed(text@),
            VoiceEvent::TranscriptionFailed(error) => VoiceEvent::TranscriptionFailed(error@),
            VoiceEvent::Stored => VoiceEvent::Stored,
            VoiceEvent::StoringFailed(error) => VoiceEvent::StoringFailed(error@),
        }
    }
}

/// What the preparation waits for.
#[derive(Debug, Clone, Copy, PartialEq, Eq, Structural)]
pub enum VoiceStage {
    Downloading,
    Transcribing,
    Storing,
    Ended,
}

/// The preparation of one voice message.
#[derive(Debug)]
pub struct VoicePreparation<S> {
    /// What was said, once it is transcribed.
    pub transcript: S,
    pub stage: VoiceStage,
}

impl View for VoicePreparation<String> {
    type V = VoicePreparation<Seq<char>>;

    open spec fn view(&self) -> VoicePreparation<Seq<char>> {
        VoicePreparation { transcript: self.transcript@, stage: self.stage }
    }
}

/// A voice message that the channel says is larger than allowed.
pub open spec fn too_large() -> VoiceResult<Seq<char>> {
    VoiceResult::Refused {
        event: "voice_too_large",
        reply: "That voice message is too large. The limit is 20 MB.",
        detail: "voice message exceeds the 20 MB limit"@,
    }
}

/// A voice message where nothing can transcribe it.
pub open spec fn not_configured() -> VoiceResult<Seq<char>> {
    VoiceResult::Refused {
        event: "voice_not_configured",
        reply: "Voice messages are unavailable. Set voice.openai_api_key in config or OPENAI_API_KEY, restart Push, or send text instead.",
        detail: "OpenAI API key is not configured"@,
    }
}

/// A voice message that could not be downloaded.
pub open spec fn download_failed(error: Seq<char>) -> VoiceResult<Seq<char>> {
    VoiceResult::Refused {
        event: "voice_download_failed",
        reply: "I could not download that voice message. Please try again or send text.",
        detail: "voice download failed: "@ + error,
    }
}

/// A voice message that could not be transcribed.
pub open spec fn transcription_failed(error: Seq<char>) -> VoiceResult<Seq<char>> {
    VoiceResult::Refused {
        event: "voice_transcription_failed",
        reply: "I could not transcribe that voice message. Please try again or send text.",
        detail: "voice transcription failed: "@ + error,
    }
}

impl VoicePreparation<Seq<char>> {
    /// The preparation of a voice message, and what to do first.
    pub open spec fn first(attachment: VoiceAttachment, limit: u64, configured: bool) -> (
        VoicePreparation<Seq<char>>,
        VoiceAction<Seq<char>>,
    ) {
        let start = VoicePreparation { transcript: Seq::empty(), stage: VoiceStage::Downloading };
        if attachment.file_size is Some && attachment.file_size->0 > limit {
            start.ended(too_large())
        } else if !configured {
            start.ended(not_configured())
        } else {
            (start, VoiceAction::Download)
        }
    }

    /// The preparation at its end.
    pub open spec fn ended(self, result: VoiceResult<Seq<char>>) -> (
        VoicePreparation<Seq<char>>,
        VoiceAction<Seq<char>>,
    ) {
        (VoicePreparation { stage: VoiceStage::Ended, ..self }, VoiceAction::Finish(result))
    }

    /// Whether the preparation waits for a report of this kind.
    pub open spec fn awaits(self, event: VoiceEvent<Seq<char>>) -> bool {
        match event {
            VoiceEvent::Downloaded | VoiceEvent::DownloadFailed(_) => self.stage is Downloading,
            VoiceEvent::Transcribed(_) | VoiceEvent::TranscriptionFailed(_) => self.stage
                is Transcribing,
            VoiceEvent::Stored | VoiceEvent::StoringFailed(_) => self.stage is Storing,
        }
    }

    /// The preparation after a report, and what to do next.
    pub open spec fn next(self, event: VoiceEvent<Seq<char>>) -> (
        VoicePreparation<Seq<char>>,
        VoiceAction<Seq<char>>,
    ) {
        match event {
            VoiceEvent::Downloaded => (
                VoicePreparation { stage: VoiceStage::Transcribing, ..self },
                VoiceAction::Transcribe,
            ),
            VoiceEvent::DownloadFailed(error) => self.ended(download_failed(error)),
            VoiceEvent::Transcribed(text) => (
                VoicePreparation { transcript: text, stage: VoiceStage::Storing },
                VoiceAction::Store(text),
            ),
            VoiceEvent::TranscriptionFailed(error) => self.ended(transcription_failed(error)),
            VoiceEvent::Stored => self.ended(VoiceResult::Transcript(self.transcript)),
            VoiceEvent::StoringFailed(error) => self.ended(VoiceResult::HistoryFailed(error)),
        }
    }
}

/// A transcript is handed on only once the history has stored that very transcript.
pub proof fn a_transcript_is_stored_first(
    before: VoicePreparation<Seq<char>>,
    first: VoiceEvent<Seq<char>>,
    second: VoiceEvent<Seq<char>>,
    transcript: Seq<char>,
)
    requires
        before.awaits(first),
        before.next(first).0.awaits(second),
        before.next(first).0.next(second).1 == VoiceAction::Finish(
            VoiceResult::Transcript(transcript),
        ),
    ensures
        before.next(first).1 == VoiceAction::Store(transcript),
        second is Stored,
{
}

impl VoicePreparation<String> {
    /// Starts the preparation of a voice message.
    pub fn begin(attachment: VoiceAttachment, limit: u64, configured: bool) -> (begun: (
        VoicePreparation<String>,
        VoiceAction<String>,
    ))
        ensures
            (begun.0@, begun.1@) == VoicePreparation::<Seq<char>>::first(
                attachment,
                limit,
                configured,
            ),
    {
        let large = match attachment.file_size {
            Some(size) => size > limit,
            None => false,
        };
        let mut start = VoicePreparation {
            transcript: String::new(),
            stage: VoiceStage::Downloading,
        };
        assert(start.transcript@ =~= Seq::<char>::empty());
        if large {
            start.stage = VoiceStage::Ended;
            let result = VoiceResult::Refused {
                event: "voice_too_large",
                reply: "That voice message is too large. The limit is 20 MB.",
                detail: "voice message exceeds the 20 MB limit".to_owned(),
            };
            (start, VoiceAction::Finish(result))
        } else if !configured {
            start.stage = VoiceStage::Ended;
            let result = VoiceResult::Refused {
                event: "voice_not_configured",
                reply: "Voice messages are unavailable. Set voice.openai_api_key in config or OPENAI_API_KEY, restart Push, or send text instead.",
                detail: "OpenAI API key is not configured".to_owned(),
            };
            (start, VoiceAction::Finish(result))
        } else {
            (start, VoiceAction::Download)
        }
    }

    /// Whether the preparation waits for a report of this kind.
    pub fn is_awaiting(&self, event: &VoiceEvent<String>) -> (yes: bool)
        ensures
            yes == self@.awaits(event@),
    {
        match event {
            VoiceEvent::Downloaded | VoiceEvent::DownloadFailed(_) => matches!(
                self.stage,
                VoiceStage::Downloading
            ),
            VoiceEvent::Transcribed(_) | VoiceEvent::TranscriptionFailed(_) => matches!(
                self.stage,
                VoiceStage::Transcribing
            ),
            VoiceEvent::Stored | VoiceEvent::StoringFailed(_) => matches!(
                self.stage,
                VoiceStage::Storing
            ),
        }
    }

    /// Takes a report and decides what is done next.
    pub fn step(&mut self, event: VoiceEvent<String>) -> (action: VoiceAction<String>)
        requires
            old(self)@.awaits(event@),
        ensures
            (final(self)@, action@) == old(self)@.next(event@),
    {
        match event {
            VoiceEvent::Downloaded => {
                self.stage = VoiceStage::Transcribing;
                VoiceAction::Transcribe
            },
            VoiceEvent::DownloadFailed(error) => {
                self.stage = VoiceStage::Ended;
                let mut detail = "voice download failed: ".to_owned();
                detail.append(error.as_str());
                VoiceAction::Finish(
                    VoiceResult::Refused {
                        event: "voice_download_failed",
                        reply: "I could not download that voice message. Please try again or send text.",
                        detail,
                    },
                )
            },
            VoiceEvent::Transcribed(text) => {
                self.transcript = text.clone();
                self.stage = VoiceStage::Storing;
                VoiceAction::Store(text)
            },
            VoiceEvent::TranscriptionFailed(error) => {
                self.stage = VoiceStage::Ended;
                let mut detail = "voice transcription failed: ".to_owned();
                detail.append(error.as_str());
                VoiceAction::Finish(
                    VoiceResult::Refused {
                        event: "voice_transcription_failed",
                        reply: "I could not transcribe that voice message. Please try again or send text.",
                        detail,
                    },
                )
            },
            VoiceEvent::Stored => {
                self.stage = VoiceStage::Ended;
                VoiceAction::Finish(VoiceResult::Transcript(self.transcript.clone()))
            },
            VoiceEvent::StoringFailed(error) => {
                self.stage = VoiceStage::Ended;
                VoiceAction::Finish(VoiceResult::HistoryFailed(error))
            },
        }
    }
}

} // verus!
