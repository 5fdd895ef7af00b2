//! The data this library works on, each type with its mathematical model.
//!
//! A type that owns strings or vectors has a model in which they are
//! sequences; `deep_view` maps a value to its model, and every contract of
//! the library is stated over models.

use vstd::prelude::*;

verus! {

/// Activity state inferred for one session.
#[derive(Debug, Clone, Copy, PartialEq, Eq, Structural)]
pub enum SessionStatus {
    /// The assistant has answered and the user is to act.
    Waiting,
    /// A tool is running or an answer is being written.
    Processing,
    /// The assistant is producing an answer.
    Thinking,
    /// Nothing has happened recently.
    Idle,
}

/// Bit pattern of 5.0 in IEEE-754 single precision.
pub const BUSY_THRESHOLD_BITS: u32 = 0x40A0_0000;

/// Bit pattern of positive infinity in IEEE-754 single precision.
pub const INFINITY_BITS: u32 = 0x7F80_0000;

/// Processor load of a process in percent, held as the IEEE-754
/// single-precision bit pattern that the operating system layer reports.
///
/// Among patterns with a clear sign bit that are no NaN, the order of the
/// patterns as integers is the order of the numbers they encode.
#[derive(Debug, Clone, Copy, PartialEq, Eq, Structural)]
pub struct CpuUsage {
    pub bits: u32,
}

impl CpuUsage {
    /// The load is a number strictly above five percent.
    pub open spec fn above_five_percent(self) -> bool {
        BUSY_THRESHOLD_BITS < self.bits <= INFINITY_BITS
    }

    /// Wraps a bit pattern.
    pub fn from_bits(bits: u32) -> (r: CpuUsage)
        ensures
            r.bits == bits,
    {
        CpuUsage { bits }
    }

    /// The bit pattern.
    pub fn to_bits(&self) -> (r: u32)
        ensures
            r == self.bits,
    {
        self.bits
    }

    /// Whether the load is strictly above five percent.
    pub fn is_busy(&self) -> (r: bool)
        ensures
            r == self.above_five_percent(),
    {
        BUSY_THRESHOLD_BITS < self.bits && self.bits <= INFINITY_BITS
    }
}

/// One running process of the assistant's command-line program.
#[derive(Debug, Clone, PartialEq)]
pub struct ClaudeProcess {
    pub pid: u32,
    pub cwd: Option<String>,
    pub cpu_usage: CpuUsage,
    pub memory: u64,
}

/// Model of [`ClaudeProcess`].
pub struct ProcessModel {
    pub pid: u32,
    pub cwd: Option<Seq<char>>,
    pub cpu_usage: CpuUsage,
    pub memory: u64,
}

impl DeepView for ClaudeProcess {
    type V = ProcessModel;

    open spec fn deep_view(&self) -> ProcessModel {
        ProcessModel {
            pid: self.pid,
            cwd: self.cwd.deep_view(),
            cpu_usage: self.cpu_usage,
            memory: self.memory,
        }
    }
}

/// One typed block of a message's content.
#[derive(Debug, Clone)]
pub struct ContentBlock {
    /// The block's `type`, where it is a string.
    pub kind: Option<String>,
    /// The block's `text`, where it is a string.
    pub text: Option<String>,
}

/// Model of [`ContentBlock`].
pub struct BlockModel {
    pub kind: Option<Seq<char>>,
    pub text: Option<Seq<char>>,
}

impl DeepView for ContentBlock {
    type V = BlockModel;

    open spec fn deep_view(&self) -> BlockModel {
        BlockModel { kind: self.kind.deep_view(), text: self.text.deep_view() }
    }
}

/// The content of a message.
#[derive(Debug, Clone)]
pub enum Content {
    /// A plain string.
    Text(String),
    /// A list of blocks.
    Blocks(Vec<ContentBlock>),
    /// Anything else.
    Other,
}

/// Model of [`Content`].
pub enum ContentModel {
    Text(Seq<char>),
    Blocks(Seq<BlockModel>),
    Other,
}

impl DeepView for Content {
    type V = ContentModel;

    open spec fn deep_view(&self) -> ContentModel {
        match self {
            Content::Text(s) => ContentModel::Text(s@),
            Content::Blocks(b) => ContentModel::Blocks(b.deep_view()),
            Content::Other => ContentModel::Other,
        }
    }
}

/// The `message` member of a log record.
#[derive(Debug, Clone)]
pub struct MessageContent {
    pub role: Option<String>,
    pub content: Option<Content>,
}

/// Model of [`MessageContent`].
pub struct MessageModel {
    pub role: Option<Seq<char>>,
    pub content: Option<ContentModel>,
}

impl DeepView for MessageContent {
    type V = MessageModel;

    open spec fn deep_view(&self) -> MessageModel {
        MessageModel { role: self.role.deep_view(), content: self.content.deep_view() }
    }
}

/// One record of a conversation log: one line of the file.
#[derive(Debug, Clone)]
pub struct JsonlMessage {
    pub session_id: Option<String>,
    pub git_branch: Option<String>,
    pub timestamp: Option<String>,
    pub msg_type: Option<String>,
    pub message: Option<MessageContent>,
}

/// Model of [`JsonlMessage`].
pub struct RecordModel {
    pub session_id: Option<Seq<char>>,
    pub git_branch: Option<Seq<char>>,
    pub timestamp: Option<Seq<char>>,
    pub msg_type: Option<Seq<char>>,
    pub message: Option<MessageModel>,
}

impl DeepView for JsonlMessage {
    type V = RecordModel;

    open spec fn deep_view(&self) -> RecordModel {
        RecordModel {
            session_id: self.session_id.deep_view(),
            git_branch: self.git_branch.deep_view(),
            timestamp: self.timestamp.deep_view(),
            msg_type: self.msg_type.deep_view(),
            message: self.message.deep_view(),
        }
    }
}

/// One conversation together with the process that holds it.
#[derive(Debug, Clone)]
pub struct Session {
    pub id: String,
    pub project_name: String,
    pub project_path: String,
    pub git_branch: Option<String>,
    pub github_url: Option<String>,
    pub status: SessionStatus,
    pub last_message: Option<String>,
    pub last_message_role: Option<String>,
    pub last_activity_at: String,
    pub pid: u32,
    pub cpu_usage: CpuUsage,
    pub active_subagent_count: usize,
}

/// Model of [`Session`].
pub struct SessionModel {
    pub id: Seq<char>,
    pub project_name: Seq<char>,
    pub project_path: Seq<char>,
    pub git_branch: Option<Seq<char>>,
    pub github_url: Option<Seq<char>>,
    pub status: SessionStatus,
    pub last_message: Option<Seq<char>>,
    pub last_message_role: Option<Seq<char>>,
    pub last_activity_at: Seq<char>,
    pub pid: u32,
    pub cpu_usage: CpuUsage,
    pub active_subagent_count: usize,
}

impl DeepView for Session {
    type V = SessionModel;

    open spec fn deep_view(&self) -> SessionModel {
        SessionModel {
            id: self.id@,
            project_name: self.project_name@,
            project_path: self.project_path@,
            git_branch: self.git_branch.deep_view(),
            github_url: self.github_url.deep_view(),
            status: self.status,
            last_message: self.last_message.deep_view(),
            last_message_role: self.last_message_role.deep_view(),
            last_activity_at: self.last_activity_at@,
            pid: self.pid,
            cpu_usage: self.cpu_usage,
            active_subagent_count: self.active_subagent_count,
        }
    }
}

/// The result of one scan: the sessions in display order, with counts.
#[derive(Debug, Clone)]
pub struct SessionsResponse {
    pub sessions: Vec<Session>,
    pub total_count: usize,
    pub waiting_count: usize,
}

/// One file of a project's log directory, as found at the time of a scan.
#[derive(Debug, Clone)]
pub struct LogFile {
    /// The file's name, without the directory.
    pub name: String,
    /// When the file was last written to: nanoseconds since the epoch.
    pub modified: u64,
    /// The file's lines, in order.
    pub lines: Vec<String>,
}

/// Model of [`LogFile`].
pub struct LogFileModel {
    pub name: Seq<char>,
    pub modified: u64,
    pub lines: Seq<Seq<char>>,
}

impl DeepView for LogFile {
    type V = LogFileModel;

    open spec fn deep_view(&self) -> LogFileModel {
        LogFileModel {
            name: self.name@,
            modified: self.modified,
            lines: self.lines.deep_view(),
        }
    }
}

/// One directory of the log store, as found at the time of a scan.
#[derive(Debug, Clone)]
pub struct ProjectDir {
    /// The directory's name: the encoded path of the project.
    pub name: String,
    /// The files in the directory, in the order they were listed.
    pub files: Vec<LogFile>,
    /// What the version-control client printed as the address of the
    /// project's remote `origin`; none where it gave no answer.
    pub remote: Option<String>,
}

/// Model of [`ProjectDir`].
pub struct ProjectDirModel {
    pub name: Seq<char>,
    pub files: Seq<LogFileModel>,
    pub remote: Option<Seq<char>>,
}

impl DeepView for ProjectDir {
    type V = ProjectDirModel;

    open spec fn deep_view(&self) -> ProjectDirModel {
        ProjectDirModel {
            name: self.name@,
            files: self.files.deep_view(),
            remote: self.remote.deep_view(),
        }
    }
}

/// A copy of an optional string.
pub fn clone_text(o: &Option<String>) -> (r: Option<String>)
    ensures
        r.deep_view() == o.deep_view(),
{
    match o {
        Some(s) => Some(s.clone()),
        None => None,
    }
}

} // verus!
