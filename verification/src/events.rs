//! The values the bridge hands upward to the shell: chat messages going to
//! the engine, the events coming back from a chat or a model pull, and the
//! small records of the single-shot calls.
use vstd::prelude::*;

verus! {

/// One turn of a conversation, forwarded to the engine verbatim and in order.
#[derive(Debug, Clone)]
pub struct ChatMessage {
    pub role: String,
    pub content: String,
}

/// Mathematical image of a `ChatMessage`.
pub struct ChatMessageV {
    pub role: Seq<char>,
    pub content: Seq<char>,
}

impl View for ChatMessage {
    type V = ChatMessageV;

    open spec fn view(&self) -> ChatMessageV {
        ChatMessageV { role: self.role@, content: self.content@ }
    }
}

impl DeepView for ChatMessage {
    type V = ChatMessageV;

    open spec fn deep_view(&self) -> ChatMessageV {
        self.view()
    }
}

/// An installed model as the engine lists it.
#[derive(Debug, Clone)]
pub struct OllamaModel {
    pub name: String,
    pub size: u64,
}

/// Mathematical image of an `OllamaModel`.
pub struct OllamaModelV {
    pub name: Seq<char>,
    pub size: u64,
}

impl View for OllamaModel {
    type V = OllamaModelV;

    open spec fn view(&self) -> OllamaModelV {
        OllamaModelV { name: self.name@, size: self.size }
    }
}

impl DeepView for OllamaModel {
    type V = OllamaModelV;

    open spec fn deep_view(&self) -> OllamaModelV {
        self.view()
    }
}

/// What a chat invocation emits: zero or more tokens, then one terminal
/// event. `Error` is the terminal form reserved for the shell to surface a
/// whole-stream failure; the bridge itself reports such failures through its
/// `Result` instead.
#[derive(Debug, Clone)]
pub enum StreamEvent {
    Token { content: String },
    Done { total_duration: u64 },
    Error { message: String },
}

/// Mathematical image of a `StreamEvent`.
pub enum StreamEventV {
    Token { content: Seq<char> },
    Done { total_duration: u64 },
    Error { message: Seq<char> },
}

impl View for StreamEvent {
    type V = StreamEventV;

    open spec fn view(&self) -> StreamEventV {
        match self {
            StreamEvent::Token { content } => StreamEventV::Token { content: content@ },
            StreamEvent::Done { total_duration } => StreamEventV::Done {
                total_duration: *total_duration,
            },
            StreamEvent::Error { message } => StreamEventV::Error { message: message@ },
        }
    }
}

impl DeepView for StreamEvent {
    type V = StreamEventV;

    open spec fn deep_view(&self) -> StreamEventV {
        self.view()
    }
}

/// What a model pull emits: progress lines, then one terminal event.
#[derive(Debug, Clone)]
pub enum PullEvent {
    Progress { status: String, completed: Option<u64>, total: Option<u64> },
    Done {},
    Error { message: String },
}

/// Mathematical image of a `PullEvent`.
pub enum PullEventV {
    Progress { status: Seq<char>, completed: Option<u64>, total: Option<u64> },
    Done {},
    Error { message: Seq<char> },
}

impl View for PullEvent {
    type V = PullEventV;

    open spec fn view(&self) -> PullEventV {
        match self {
            PullEvent::Progress { status, completed, total } => PullEventV::Progress {
                status: status@,
                completed: *completed,
                total: *total,
            },
            PullEvent::Done {} => PullEventV::Done {},
            PullEvent::Error { message } => PullEventV::Error { message: message@ },
        }
    }
}

impl DeepView for PullEvent {
    type V = PullEventV;

    open spec fn deep_view(&self) -> PullEventV {
        self.view()
    }
}

/// The process-wide cancellation switch for the chat bridge. The shell owns
/// one of these behind its lock; the chat driver clears it when an invocation
/// starts and reads it before each chunk.
pub struct ChatCancelFlag {
    pub cancelled: bool,
}

impl ChatCancelFlag {
    pub fn new() -> (r: ChatCancelFlag)
        ensures
            !r.cancelled,
    {
        ChatCancelFlag { cancelled: false }
    }

    /// Cleared at the start of every chat invocation.
    pub fn reset(&mut self)
        ensures
            !final(self).cancelled,
    {
        self.cancelled = false;
    }

    /// Set by an explicit cancel request.
    pub fn request_cancel(&mut self)
        ensures
            final(self).cancelled,
    {
        self.cancelled = true;
    }

    pub fn is_cancelled(&self) -> (r: bool)
        ensures
            r == self.cancelled,
    {
        self.cancelled
    }
}

/// Where the engine keeps its models and how many bytes they take.
#[derive(Debug, Clone)]
pub struct StorageInfo {
    pub path: String,
    pub size_bytes: u64,
}

/// Mathematical image of a `StorageInfo`.
pub struct StorageInfoV {
    pub path: Seq<char>,
    pub size_bytes: u64,
}

impl View for StorageInfo {
    type V = StorageInfoV;

    open spec fn view(&self) -> StorageInfoV {
        StorageInfoV { path: self.path@, size_bytes: self.size_bytes }
    }
}

/// One readable file found under a watched folder.
#[derive(Debug, Clone)]
pub struct FolderFile {
    pub name: String,
    pub path: String,
    pub content: String,
}

/// Why an operation against the engine failed. The shell turns these into
/// user-visible messages; per-line parse failures never become one.
#[derive(Debug, Clone)]
pub enum BridgeError {
    /// The engine could not be reached at all; the transport's own words.
    Unreachable { detail: String },
    /// The engine answered with a non-success status before any stream began.
    EngineStatus { status: u16, body: String },
    /// A single-shot response could not be understood.
    BadResponse { detail: String },
    /// The engine binary is not at its fixed resource-relative path.
    BinaryMissing,
    /// The engine refused to delete a model; its response body.
    DeleteFailed { detail: String },
    /// A file offered for reading is over the fixed size cap.
    FileTooLarge,
}

} // verus!
