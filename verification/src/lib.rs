//! Discovery of the running sessions of an assistant's command-line
//! program, and of what each of them is doing.
//!
//! The library decides and computes; it reads nothing from the machine.
//! A caller hands it the process table, the directories and files of the
//! log store and the time, and gets the list of sessions; to bring the
//! terminal of a session forward, the caller runs the commands that the
//! library asks for and reports how they ended.

pub mod codec;
pub mod json;
pub mod model;
pub mod order;
pub mod parser;
pub mod process;
pub mod remote;
pub mod sessions;
pub mod status;
pub mod terminal;
pub mod text;

pub use codec::{convert_dir_name_to_path, convert_path_to_dir_name};
pub use model::{ClaudeProcess, CpuUsage, Session, SessionStatus, SessionsResponse};
pub use parser::parse_session_file;
pub use process::find_claude_processes;
pub use sessions::get_sessions;
pub use status::{
    determine_status, has_tool_result, has_tool_use, is_interrupted_request,
    is_local_slash_command, status_sort_priority,
};
pub use terminal::{focus_session, focus_step, focus_terminal_by_path, focus_terminal_for_pid};
