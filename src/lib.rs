//! A bridge between a chat service and per-conversation subprocesses.
//!
//! The library holds the logic of the bridge: the line protocol that a
//! subprocess speaks on its standard output, the conversion of chat events
//! into argument lines, and the routing of events to per-conversation actors.
//! Everything that waits on the network or on a process lives outside it.

pub mod args;
pub mod bridge;
pub mod commands;
pub mod dispatch;
pub mod protocol;
pub mod telegram;
pub mod text;

pub use args::{HandleEvent, download_report, event_to_args, input_line};
pub use bridge::ChatActor;
pub use commands::{CommandFileError, parse_commands};
pub use dispatch::{Dispatcher, PollState, Route};
pub use protocol::{Action, ChatState, HandleError};
pub use telegram::{
    CallbackQuery, Chat, Document, File, InlineKeyboardButton, InlineKeyboardVariant, Message,
    KeyboardEntry, MessageRequest, PhotoSize, TelegramError, TelegramResponse, UpdateResponse,
    message_method, message_request,
};
pub use text::{clean_file_name, safe_text, split_quoted};
