//! The line protocol that a subprocess speaks on its standard output.
//!
//! A line that starts with `//` and a directive name asks the bridge to act;
//! any other line is text that gathers in the buffer of the next message.
use vstd::prelude::*;

use crate::telegram::{
    ButtonModel, ButtonTarget, InlineKeyboardButton, InlineKeyboardVariant, copy_keyboard,
    keyboard_view,
};
use crate::text::{has_prefix, same_text, split_quoted, split_token, starts_with, trim, trimmed_from};

verus! {

/// Declares std's error for bytes that are not UTF-8, so that it can be
/// carried in an error of this library.
#[verifier::external_type_specification]
#[verifier::external_body]
pub struct ExUtf8Error(std::str::Utf8Error);

/// What ends the work of a chat actor.
#[derive(Debug, PartialEq, Eq)]
pub enum HandleError {
    /// The output ended inside a heredoc block.
    UnclosedHeredoc,
    /// An `edit` came before any message was sent.
    EditedUnsentMessage,
    /// A `delete` came before any message was sent.
    DeletedUnsentMessage,
    /// A `remove-inline-keyboard` came before any message was sent.
    RemovedInlineKeyboardForUnsetMessage,
    /// A line of output is not UTF-8.
    Utf8Error(std::str::Utf8Error),
    /// An `inline-button` line has no kind.
    InlineButtonExpectedKind,
    /// An `inline-button` line has no data.
    InlineButtonExpectedData,
    /// An `inline-button` line names a kind other than `url` and `callback`.
    InvalidInlineButtonKind(String),
}

/// A [`HandleError`], in the contracts.
pub ghost enum Fault {
    UnclosedHeredoc,
    EditedUnsentMessage,
    DeletedUnsentMessage,
    RemovedInlineKeyboardForUnsetMessage,
    Utf8Error,
    InlineButtonExpectedKind,
    InlineButtonExpectedData,
    InvalidInlineButtonKind(Seq<char>),
}

impl View for HandleError {
    type V = Fault;

    open spec fn view(&self) -> Fault {
        match self {
            HandleError::UnclosedHeredoc => Fault::UnclosedHeredoc,
            HandleError::EditedUnsentMessage => Fault::EditedUnsentMessage,
            HandleError::DeletedUnsentMessage => Fault::DeletedUnsentMessage,
            HandleError::RemovedInlineKeyboardForUnsetMessage => Fault::RemovedInlineKeyboardForUnsetMessage,
            HandleError::Utf8Error(_) => Fault::Utf8Error,
            HandleError::InlineButtonExpectedKind => Fault::InlineButtonExpectedKind,
            HandleError::InlineButtonExpectedData => Fault::InlineButtonExpectedData,
            HandleError::InvalidInlineButtonKind(k) => Fault::InvalidInlineButtonKind(k@),
        }
    }
}

/// What a directive asks of the bridge: mostly a call on the chat service.
#[derive(Debug, PartialEq, Eq)]
#[allow(inconsistent_fields)]
pub enum Action {
    /// Send the text as a new message, with the keyboard.
    SendMessage { text: String, keyboard: Vec<InlineKeyboardButton> },
    /// Replace the text of a sent message (where there is one) and its keyboard.
    EditMessage { message_id: u64, text: Option<String>, keyboard: Vec<InlineKeyboardButton> },
    /// Take the inline keyboard off a sent message.
    RemoveKeyboard { message_id: u64 },
    /// Delete a sent message.
    DeleteMessage { message_id: u64 },
    /// Upload a local file as a document.
    SendFile { path: String },
    /// Upload a local file as a photo.
    SendPhoto { path: String },
    /// Show a chat action such as "typing".
    ChatAction { action: String },
    /// Fetch a file of the chat service and report where it was stored.
    DownloadFile { file_id: String },
    /// A `send` found the buffer empty: there is nothing to call, but the
    /// subprocess deserves a warning.
    NothingToSend,
}

/// An [`Action`], in the contracts.
#[allow(inconsistent_fields)]
pub ghost enum ActionModel {
    SendMessage { text: Seq<char>, keyboard: Seq<ButtonModel> },
    EditMessage { message_id: u64, text: Option<Seq<char>>, keyboard: Seq<ButtonModel> },
    RemoveKeyboard { message_id: u64 },
    DeleteMessage { message_id: u64 },
    SendFile { path: Seq<char> },
    SendPhoto { path: Seq<char> },
    ChatAction { action: Seq<char> },
    DownloadFile { file_id: Seq<char> },
    NothingToSend,
}

pub open spec fn text_view(t: Option<String>) -> Option<Seq<char>> {
    match t {
        Some(s) => Some(s@),
        None => None,
    }
}

impl View for Action {
    type V = ActionModel;

    open spec fn view(&self) -> ActionModel {
        match self {
            Action::SendMessage { text, keyboard } => ActionModel::SendMessage {
                text: text@,
                keyboard: keyboard_view(keyboard@),
            },
            Action::EditMessage { message_id, text, keyboard } => ActionModel::EditMessage {
                message_id: *message_id,
                text: text_view(*text),
                keyboard: keyboard_view(keyboard@),
            },
            Action::RemoveKeyboard { message_id } => ActionModel::RemoveKeyboard {
                message_id: *message_id,
            },
            Action::DeleteMessage { message_id } => ActionModel::DeleteMessage {
                message_id: *message_id,
            },
            Action::SendFile { path } => ActionModel::SendFile { path: path@ },
            Action::SendPhoto { path } => ActionModel::SendPhoto { path: path@ },
            Action::ChatAction { action } => ActionModel::ChatAction { action: action@ },
            Action::DownloadFile { file_id } => ActionModel::DownloadFile { file_id: file_id@ },
            Action::NothingToSend => ActionModel::NothingToSend,
        }
    }
}

/// What a step of the protocol yields: nothing to do, an action, or an error.
pub open spec fn outcome_view(r: Result<Option<Action>, HandleError>) -> Result<
    Option<ActionModel>,
    Fault,
> {
    match r {
        Ok(Some(a)) => Ok(Some(a@)),
        Ok(None) => Ok(None),
        Err(e) => Err(e@),
    }
}

/// The state of a chat actor, in the contracts.
pub ghost struct ChatModel {
    /// The text gathered for the next message.
    pub buffer: Seq<char>,
    /// The buttons gathered for the next message.
    pub keyboard: Seq<ButtonModel>,
    /// The last message sent, which `edit` and `delete` refer to.
    pub last_message_id: Option<u64>,
    /// The terminator of the heredoc block that is open, if one is.
    pub heredoc: Option<Seq<char>>,
}

/// The state in which an actor starts.
pub open spec fn initial_model() -> ChatModel {
    ChatModel { buffer: Seq::empty(), keyboard: Seq::empty(), last_message_id: None, heredoc: None }
}

/// The value of a directive: the rest of the line after its name, trimmed.
pub open spec fn directive_value(line: Seq<char>, name: Seq<char>) -> Seq<char> {
    trim(line.subrange(name.len() as int, line.len() as int))
}

/// The button that the value of an `inline-button` directive describes: a
/// kind and data, each a bare or quoted token, then the label.
pub open spec fn button_of(value: Seq<char>) -> Result<ButtonModel, Fault> {
    match split_token(value) {
        None => Err(Fault::InlineButtonExpectedKind),
        Some((kind, after_kind)) => match split_token(after_kind) {
            None => Err(Fault::InlineButtonExpectedData),
            Some((data, label)) => if kind == "url"@ {
                Ok(ButtonModel { text: label, target: ButtonTarget::Url(data) })
            } else if kind == "callback"@ {
                Ok(ButtonModel { text: label, target: ButtonTarget::Callback(data) })
            } else {
                Err(Fault::InvalidInlineButtonKind(kind))
            },
        },
    }
}

/// `m` with `line` and a newline added to the buffer.
pub open spec fn with_text(m: ChatModel, line: Seq<char>) -> ChatModel {
    ChatModel { buffer: m.buffer + line + seq!['\n'], ..m }
}

/// What one line of output does to the state of an actor, and what it asks
/// for. Directive names are matched as prefixes, in the order below.
pub open spec fn line_step(m: ChatModel, line: Seq<char>) -> (
    ChatModel,
    Result<Option<ActionModel>, Fault>,
) {
    match m.heredoc {
        Some(terminator) => if starts_with(line, terminator) {
            (ChatModel { heredoc: None, ..m }, Ok(None))
        } else {
            (with_text(m, line), Ok(None))
        },
        None => if starts_with(line, "//heredoc"@) {
            (ChatModel { heredoc: Some(directive_value(line, "//heredoc"@)), ..m }, Ok(None))
        } else if starts_with(line, "//send-file"@) {
            (m, Ok(Some(ActionModel::SendFile { path: directive_value(line, "//send-file"@) })))
        } else if starts_with(line, "//send-photo"@) {
            (m, Ok(Some(ActionModel::SendPhoto { path: directive_value(line, "//send-photo"@) })))
        } else if starts_with(line, "//chat-action"@) {
            (
                m,
                Ok(
                    Some(
                        ActionModel::ChatAction { action: directive_value(line, "//chat-action"@) },
                    ),
                ),
            )
        } else if starts_with(line, "//download-file"@) {
            (
                m,
                Ok(
                    Some(
                        ActionModel::DownloadFile {
                            file_id: directive_value(line, "//download-file"@),
                        },
                    ),
                ),
            )
        } else if starts_with(line, "//inline-button"@) {
            match button_of(directive_value(line, "//inline-button"@)) {
                Ok(b) => (ChatModel { keyboard: m.keyboard.push(b), ..m }, Ok(None)),
                Err(f) => (m, Err(f)),
            }
        } else if starts_with(line, "//delete"@) {
            match m.last_message_id {
                Some(id) => (m, Ok(Some(ActionModel::DeleteMessage { message_id: id }))),
                None => (m, Err(Fault::DeletedUnsentMessage)),
            }
        } else if starts_with(line, "//remove-inline-keyboard"@) {
            match m.last_message_id {
                Some(id) => (m, Ok(Some(ActionModel::RemoveKeyboard { message_id: id }))),
                None => (m, Err(Fault::RemovedInlineKeyboardForUnsetMessage)),
            }
        } else if starts_with(line, "//edit"@) {
            match m.last_message_id {
                Some(id) => (
                    m,
                    Ok(
                        Some(
                            ActionModel::EditMessage {
                                message_id: id,
                                text: if m.buffer.len() > 0 {
                                    Some(m.buffer)
                                } else {
                                    None
                                },
                                keyboard: m.keyboard,
                            },
                        ),
                    ),
                ),
                None => (m, Err(Fault::EditedUnsentMessage)),
            }
        } else if starts_with(line, "//send"@) {
            if m.buffer.len() == 0 {
                (m, Ok(Some(ActionModel::NothingToSend)))
            } else {
                (m, Ok(Some(ActionModel::SendMessage { text: m.buffer, keyboard: m.keyboard })))
            }
        } else {
            (with_text(m, line), Ok(None))
        },
    }
}

/// The state after the message of a `send` went out as message `id`.
pub open spec fn after_send(m: ChatModel, id: u64) -> ChatModel {
    ChatModel { buffer: Seq::empty(), keyboard: Seq::empty(), last_message_id: Some(id), ..m }
}

/// The state after the edit of an `edit` went through.
pub open spec fn after_edit(m: ChatModel) -> ChatModel {
    ChatModel { buffer: Seq::empty(), keyboard: Seq::empty(), ..m }
}

/// The state after the message of a `delete` was deleted.
pub open spec fn after_delete(m: ChatModel) -> ChatModel {
    ChatModel { last_message_id: None, ..m }
}

/// The message that ends a session: after a clean exit, the text still in
/// the buffer with its buttons, unless there is none; after an abnormal exit,
/// a fixed notice of failure without buttons, unless notices are suppressed.
pub open spec fn exit_notice(m: ChatModel, success: bool, suppress_notice: bool) -> Option<
    ActionModel,
> {
    if success {
        if m.buffer.len() > 0 {
            Some(ActionModel::SendMessage { text: m.buffer, keyboard: m.keyboard })
        } else {
            None
        }
    } else if !suppress_notice {
        Some(ActionModel::SendMessage { text: "Fatal Server Error"@, keyboard: Seq::empty() })
    } else {
        None
    }
}

/// Applies `lines` in order, until one asks for an action or fails.
pub open spec fn run_lines(m: ChatModel, lines: Seq<Seq<char>>) -> (
    ChatModel,
    Result<Option<ActionModel>, Fault>,
)
    decreases lines.len(),
{
    if lines.len() == 0 {
        (m, Ok(None))
    } else {
        let (next, r) = line_step(m, lines[0]);
        if r == Ok::<Option<ActionModel>, Fault>(None) {
            run_lines(next, lines.drop_first())
        } else {
            (next, r)
        }
    }
}

/// The lines, each followed by a newline.
pub open spec fn with_newlines(lines: Seq<Seq<char>>) -> Seq<char>
    decreases lines.len(),
{
    if lines.len() == 0 {
        Seq::empty()
    } else {
        lines[0] + seq!['\n'] + with_newlines(lines.drop_first())
    }
}

/// The terminator that a `heredoc` line names.
pub open spec fn heredoc_terminator(open: Seq<char>) -> Seq<char> {
    directive_value(open, "//heredoc"@)
}

/// Heredoc round trip: the lines between a `heredoc` line and the next line
/// that starts with its terminator reach the buffer as they are, each with a
/// newline; neither the opening nor the closing line does, and no line in
/// between is read as a directive.
pub proof fn heredoc_round_trip(
    m: ChatModel,
    open: Seq<char>,
    body: Seq<Seq<char>>,
    close: Seq<char>,
)
    requires
        m.heredoc is None,
        starts_with(open, "//heredoc"@),
        forall|i: int| 0 <= i < body.len() ==> !starts_with(body[i], heredoc_terminator(open)),
        starts_with(close, heredoc_terminator(open)),
    ensures
        run_lines(m, seq![open] + body + seq![close]) == (
            ChatModel { buffer: m.buffer + with_newlines(body), ..m },
            Ok::<Option<ActionModel>, Fault>(None),
        ),
{
    let all = seq![open] + body + seq![close];
    let inner = ChatModel { heredoc: Some(heredoc_terminator(open)), ..m };
    assert(all.drop_first() =~= body + seq![close]);
    assert(line_step(m, open) == (inner, Ok::<Option<ActionModel>, Fault>(None)));
    lemma_heredoc_body(inner, body, close);
    assert(ChatModel { buffer: inner.buffer + with_newlines(body), heredoc: None, ..inner } == ChatModel {
        buffer: m.buffer + with_newlines(body),
        ..m
    });
}

proof fn lemma_heredoc_body(h: ChatModel, body: Seq<Seq<char>>, close: Seq<char>)
    requires
        h.heredoc is Some,
        forall|i: int| 0 <= i < body.len() ==> !starts_with(body[i], h.heredoc->0),
        starts_with(close, h.heredoc->0),
    ensures
        run_lines(h, body + seq![close]) == (
            ChatModel { buffer: h.buffer + with_newlines(body), heredoc: None, ..h },
            Ok::<Option<ActionModel>, Fault>(None),
        ),
    decreases body.len(),
{
    let lines = body + seq![close];
    if body.len() == 0 {
        assert(lines =~= seq![close]);
        assert(lines.drop_first() =~= Seq::<Seq<char>>::empty());
        assert(h.buffer + with_newlines(body) =~= h.buffer);
        let closed = ChatModel { heredoc: None, ..h };
        assert(line_step(h, close) == (closed, Ok::<Option<ActionModel>, Fault>(None)));
        assert(run_lines(closed, lines.drop_first()) == (closed, Ok::<Option<ActionModel>, Fault>(None)));
    } else {
        let next = with_text(h, body[0]);
        assert(lines[0] == body[0]);
        assert(lines.drop_first() =~= body.drop_first() + seq![close]);
        assert forall|i: int| 0 <= i < body.drop_first().len() implies !starts_with(
            body.drop_first()[i],
            next.heredoc->0,
        ) by {
            assert(body.drop_first()[i] == body[i + 1]);
        }
        assert(!starts_with(body[0], h.heredoc->0));
        assert(line_step(h, body[0]) == (next, Ok::<Option<ActionModel>, Fault>(None)));
        lemma_heredoc_body(next, body.drop_first(), close);
        assert(next.buffer + with_newlines(body.drop_first()) =~= h.buffer + with_newlines(body));
        assert(run_lines(h, lines) == run_lines(next, lines.drop_first()));
    }
}

/// The directive names, each of which starts with `//`.
proof fn lemma_directive_names()
    ensures
        starts_with("//heredoc"@, "//"@),
        starts_with("//send-file"@, "//"@),
        starts_with("//send-photo"@, "//"@),
        starts_with("//chat-action"@, "//"@),
        starts_with("//download-file"@, "//"@),
        starts_with("//inline-button"@, "//"@),
        starts_with("//delete"@, "//"@),
        starts_with("//remove-inline-keyboard"@, "//"@),
        starts_with("//edit"@, "//"@),
        starts_with("//send"@, "//"@),
{
    reveal_strlit("//");
    reveal_strlit("//heredoc");
    reveal_strlit("//send-file");
    reveal_strlit("//send-photo");
    reveal_strlit("//chat-action");
    reveal_strlit("//download-file");
    reveal_strlit("//inline-button");
    reveal_strlit("//delete");
    reveal_strlit("//remove-inline-keyboard");
    reveal_strlit("//edit");
    reveal_strlit("//send");
    assert("//heredoc"@.subrange(0, 2) =~= "//"@);
    assert("//send-file"@.subrange(0, 2) =~= "//"@);
    assert("//send-photo"@.subrange(0, 2) =~= "//"@);
    assert("//chat-action"@.subrange(0, 2) =~= "//"@);
    assert("//download-file"@.subrange(0, 2) =~= "//"@);
    assert("//inline-button"@.subrange(0, 2) =~= "//"@);
    assert("//delete"@.subrange(0, 2) =~= "//"@);
    assert("//remove-inline-keyboard"@.subrange(0, 2) =~= "//"@);
    assert("//edit"@.subrange(0, 2) =~= "//"@);
    assert("//send"@.subrange(0, 2) =~= "//"@);
}

proof fn lemma_prefix_of_prefix(s: Seq<char>, p: Seq<char>, q: Seq<char>)
    requires
        starts_with(s, p),
        starts_with(p, q),
    ensures
        starts_with(s, q),
{
    assert(s.subrange(0, q.len() as int) =~= p.subrange(0, q.len() as int));
}

/// A line that does not start with `//` is text: it goes to the buffer.
pub proof fn plain_line_is_text(m: ChatModel, line: Seq<char>)
    requires
        m.heredoc is None,
        !starts_with(line, "//"@),
    ensures
        line_step(m, line) == (with_text(m, line), Ok::<Option<ActionModel>, Fault>(None)),
{
    lemma_directive_names();
    if starts_with(line, "//heredoc"@) {
        lemma_prefix_of_prefix(line, "//heredoc"@, "//"@);
    }
    if starts_with(line, "//send-file"@) {
        lemma_prefix_of_prefix(line, "//send-file"@, "//"@);
    }
    if starts_with(line, "//send-photo"@) {
        lemma_prefix_of_prefix(line, "//send-photo"@, "//"@);
    }
    if starts_with(line, "//chat-action"@) {
        lemma_prefix_of_prefix(line, "//chat-action"@, "//"@);
    }
    if starts_with(line, "//download-file"@) {
        lemma_prefix_of_prefix(line, "//download-file"@, "//"@);
    }
    if starts_with(line, "//inline-button"@) {
        lemma_prefix_of_prefix(line, "//inline-button"@, "//"@);
    }
    if starts_with(line, "//delete"@) {
        lemma_prefix_of_prefix(line, "//delete"@, "//"@);
    }
    if starts_with(line, "//remove-inline-keyboard"@) {
        lemma_prefix_of_prefix(line, "//remove-inline-keyboard"@, "//"@);
    }
    if starts_with(line, "//edit"@) {
        lemma_prefix_of_prefix(line, "//edit"@, "//"@);
    }
    if starts_with(line, "//send"@) {
        lemma_prefix_of_prefix(line, "//send"@, "//"@);
    }
}

/// The line `//send` names no other directive.
proof fn lemma_send_line()
    ensures
        !starts_with("//send"@, "//heredoc"@),
        !starts_with("//send"@, "//send-file"@),
        !starts_with("//send"@, "//send-photo"@),
        !starts_with("//send"@, "//chat-action"@),
        !starts_with("//send"@, "//download-file"@),
        !starts_with("//send"@, "//inline-button"@),
        !starts_with("//send"@, "//delete"@),
        !starts_with("//send"@, "//remove-inline-keyboard"@),
        !starts_with("//send"@, "//edit"@),
        starts_with("//send"@, "//send"@),
{
    reveal_strlit("//heredoc");
    reveal_strlit("//send-file");
    reveal_strlit("//send-photo");
    reveal_strlit("//chat-action");
    reveal_strlit("//download-file");
    reveal_strlit("//inline-button");
    reveal_strlit("//delete");
    reveal_strlit("//remove-inline-keyboard");
    reveal_strlit("//edit");
    reveal_strlit("//send");
    assert("//send"@.subrange(0, 6) =~= "//send"@);
    assert("//send"@.subrange(0, 6)[2] != "//heredoc"@[2]);
    assert("//send"@.subrange(0, 6)[2] != "//chat-action"@[2]);
    assert("//send"@.subrange(0, 6)[2] != "//download-file"@[2]);
    assert("//send"@.subrange(0, 6)[2] != "//inline-button"@[2]);
    assert("//send"@.subrange(0, 6)[2] != "//delete"@[2]);
    assert("//send"@.subrange(0, 6)[2] != "//remove-inline-keyboard"@[2]);
    assert("//send"@.subrange(0, 6)[2] != "//edit"@[2]);
}

/// A `send` leaves nothing behind: the message carries the buffer and the
/// keyboard, both are empty once it went out, and the next `send` carries
/// only what was written after it, with no buttons.
pub proof fn send_leaves_nothing_behind(m: ChatModel, id: u64, text: Seq<char>)
    requires
        m.heredoc is None,
        m.buffer.len() > 0,
        !starts_with(text, "//"@),
    ensures
        line_step(m, "//send"@) == (
            m,
            Ok::<Option<ActionModel>, Fault>(
                Some(ActionModel::SendMessage { text: m.buffer, keyboard: m.keyboard }),
            ),
        ),
        after_send(m, id).buffer.len() == 0,
        after_send(m, id).keyboard.len() == 0,
        run_lines(after_send(m, id), seq![text, "//send"@]) == (
            with_text(after_send(m, id), text),
            Ok::<Option<ActionModel>, Fault>(
                Some(
                    ActionModel::SendMessage { text: text + seq!['\n'], keyboard: Seq::empty() },
                ),
            ),
        ),
{
    lemma_send_line();
    let a = after_send(m, id);
    plain_line_is_text(a, text);
    let b = with_text(a, text);
    assert(b.buffer =~= text + seq!['\n']);
    let lines = seq![text, "//send"@];
    assert(lines.drop_first() =~= seq!["//send"@]);
    assert(lines.drop_first().drop_first() =~= Seq::<Seq<char>>::empty());
    assert(lines[0] == text);
    assert(line_step(a, text) == (b, Ok::<Option<ActionModel>, Fault>(None)));
    assert(b.keyboard =~= Seq::<ButtonModel>::empty());
    let sent = ActionModel::SendMessage { text: text + seq!['\n'], keyboard: Seq::empty() };
    assert(line_step(b, "//send"@) == (b, Ok::<Option<ActionModel>, Fault>(Some(sent))));
    assert(run_lines(b, lines.drop_first()) == (b, Ok::<Option<ActionModel>, Fault>(Some(sent))));
}

/// Before any message was sent, `delete`, `remove-inline-keyboard` and
/// `edit` fail with their own error, change nothing and ask for no call.
pub proof fn no_prior_message(m: ChatModel, line: Seq<char>)
    requires
        m.heredoc is None,
        m.last_message_id is None,
    ensures
        starts_with(line, "//delete"@) ==> line_step(m, line) == (
            m,
            Err::<Option<ActionModel>, Fault>(Fault::DeletedUnsentMessage),
        ),
        starts_with(line, "//remove-inline-keyboard"@) ==> line_step(m, line) == (
            m,
            Err::<Option<ActionModel>, Fault>(Fault::RemovedInlineKeyboardForUnsetMessage),
        ),
        starts_with(line, "//edit"@) ==> line_step(m, line) == (
            m,
            Err::<Option<ActionModel>, Fault>(Fault::EditedUnsentMessage),
        ),
{
    reveal_strlit("//heredoc");
    reveal_strlit("//send-file");
    reveal_strlit("//send-photo");
    reveal_strlit("//chat-action");
    reveal_strlit("//download-file");
    reveal_strlit("//inline-button");
    reveal_strlit("//delete");
    reveal_strlit("//remove-inline-keyboard");
    reveal_strlit("//edit");
    let earlier = seq![
        "//heredoc"@,
        "//send-file"@,
        "//send-photo"@,
        "//chat-action"@,
        "//download-file"@,
        "//inline-button"@,
        "//delete"@,
        "//remove-inline-keyboard"@,
    ];
    // Each name is told apart from those before it by its third character,
    // but `delete` from `download-file`, which the fourth tells apart.
    if starts_with(line, "//delete"@) {
        assert forall|j: int| 0 <= j < 6 implies !starts_with(line, #[trigger] earlier[j]) by {
            lemma_differs(line, "//delete"@, earlier[j], if j == 4 { 3 } else { 2 });
        }
    }
    if starts_with(line, "//remove-inline-keyboard"@) {
        assert forall|j: int| 0 <= j < 7 implies !starts_with(line, #[trigger] earlier[j]) by {
            lemma_differs(line, "//remove-inline-keyboard"@, earlier[j], 2);
        }
    }
    if starts_with(line, "//edit"@) {
        assert forall|j: int| 0 <= j < 8 implies !starts_with(line, #[trigger] earlier[j]) by {
            lemma_differs(line, "//edit"@, earlier[j], 2);
        }
    }
}

/// A line that starts with `p` does not start with `q` where the two differ
/// at position `i`.
proof fn lemma_differs(line: Seq<char>, p: Seq<char>, q: Seq<char>, i: int)
    requires
        starts_with(line, p),
        0 <= i < p.len(),
        i < q.len(),
        p[i] != q[i],
    ensures
        !starts_with(line, q),
{
    if starts_with(line, q) {
        assert(line.subrange(0, p.len() as int)[i] == line.subrange(0, q.len() as int)[i]);
    }
}

/// The state of the line protocol of one chat actor: what was gathered for
/// the next message, the last message sent, and whether a heredoc is open.
pub struct ChatState {
    buffer: String,
    keyboard: Vec<InlineKeyboardButton>,
    last_message_id: Option<u64>,
    heredoc: Option<String>,
}

impl View for ChatState {
    type V = ChatModel;

    closed spec fn view(&self) -> ChatModel {
        ChatModel {
            buffer: self.buffer@,
            keyboard: keyboard_view(self.keyboard@),
            last_message_id: self.last_message_id,
            heredoc: text_view(self.heredoc),
        }
    }
}

impl ChatState {
    /// The state of a new actor: nothing gathered, nothing sent.
    pub fn new() -> (r: ChatState)
        ensures
            r@ == initial_model(),
    {
        let r = ChatState {
            buffer: String::new(),
            keyboard: Vec::new(),
            last_message_id: None,
            heredoc: None,
        };
        assert(keyboard_view(r.keyboard@) =~= Seq::empty());
        r
    }

    fn add_text(&mut self, line: &str)
        ensures
            final(self)@ == with_text(old(self)@, line@),
    {
        self.buffer.push_str(line);
        self.buffer.push('\n');
        assert(final(self)@.buffer =~= old(self)@.buffer + line@ + seq!['\n']);
    }

    /// Applies one line of output (without its line ending) and returns what it
    /// asks for. State that a call consumes is not cleared here: the caller
    /// clears it with [`ChatState::sent`], [`ChatState::edited`] or
    /// [`ChatState::deleted`] once the call went through.
    pub fn apply_line(&mut self, line: &str) -> (r: Result<Option<Action>, HandleError>)
        ensures
            (final(self)@, outcome_view(r)) == line_step(old(self)@, line@),
    {
        let cs = crate::text::chars_of(line);
        if let Some(terminator) = &self.heredoc {
            if has_prefix(&cs, terminator.as_str()) {
                self.heredoc = None;
            } else {
                self.add_text(line);
            }
            return Ok(None);
        }
        if has_prefix(&cs, "//heredoc") {
            proof { reveal_strlit("//heredoc"); }
            let value = trimmed_from(line, &cs, 9);
            self.heredoc = Some(value.to_owned());
            Ok(None)
        } else if has_prefix(&cs, "//send-file") {
            proof { reveal_strlit("//send-file"); }
            let path = trimmed_from(line, &cs, 11).to_owned();
            Ok(Some(Action::SendFile { path }))
        } else if has_prefix(&cs, "//send-photo") {
            proof { reveal_strlit("//send-photo"); }
            let path = trimmed_from(line, &cs, 12).to_owned();
            Ok(Some(Action::SendPhoto { path }))
        } else if has_prefix(&cs, "//chat-action") {
            proof { reveal_strlit("//chat-action"); }
            let action = trimmed_from(line, &cs, 13).to_owned();
            Ok(Some(Action::ChatAction { action }))
        } else if has_prefix(&cs, "//download-file") {
            proof { reveal_strlit("//download-file"); }
            let file_id = trimmed_from(line, &cs, 15).to_owned();
            Ok(Some(Action::DownloadFile { file_id }))
        } else if has_prefix(&cs, "//inline-button") {
            proof { reveal_strlit("//inline-button"); }
            let value = trimmed_from(line, &cs, 15);
            match parse_button(value) {
                Ok(button) => {
                    self.keyboard.push(button);
                    proof {
                        assert(keyboard_view(self.keyboard@) =~= keyboard_view(
                            old(self).keyboard@,
                        ).push(button@));
                    }
                    Ok(None)
                },
                Err(e) => Err(e),
            }
        } else if has_prefix(&cs, "//delete") {
            match self.last_message_id {
                Some(id) => Ok(Some(Action::DeleteMessage { message_id: id })),
                None => Err(HandleError::DeletedUnsentMessage),
            }
        } else if has_prefix(&cs, "//remove-inline-keyboard") {
            match self.last_message_id {
                Some(id) => Ok(Some(Action::RemoveKeyboard { message_id: id })),
                None => Err(HandleError::RemovedInlineKeyboardForUnsetMessage),
            }
        } else if has_prefix(&cs, "//edit") {
            match self.last_message_id {
                Some(id) => {
                    let text = if self.buffer.as_str().is_empty() {
                        None
                    } else {
                        Some(self.buffer.clone())
                    };
                    let keyboard = copy_keyboard(&self.keyboard);
                    Ok(Some(Action::EditMessage { message_id: id, text, keyboard }))
                },
                None => Err(HandleError::EditedUnsentMessage),
            }
        } else if has_prefix(&cs, "//send") {
            if self.buffer.as_str().is_empty() {
                Ok(Some(Action::NothingToSend))
            } else {
                let text = self.buffer.clone();
                let keyboard = copy_keyboard(&self.keyboard);
                Ok(Some(Action::SendMessage { text, keyboard }))
            }
        } else {
            self.add_text(line);
            Ok(None)
        }
    }

    /// Records that the message of a `send` went out as message `message_id`:
    /// the buffer and the keyboard are cleared.
    pub fn sent(&mut self, message_id: u64)
        ensures
            final(self)@ == after_send(old(self)@, message_id),
    {
        self.buffer = String::new();
        self.keyboard = Vec::new();
        self.last_message_id = Some(message_id);
        assert(keyboard_view(self.keyboard@) =~= Seq::empty());
    }

    /// Records that the edit of an `edit` went through: the buffer and the
    /// keyboard are cleared.
    pub fn edited(&mut self)
        ensures
            final(self)@ == after_edit(old(self)@),
    {
        self.buffer = String::new();
        self.keyboard = Vec::new();
        assert(keyboard_view(self.keyboard@) =~= Seq::empty());
    }

    /// Records that the last message was deleted.
    pub fn deleted(&mut self)
        ensures
            final(self)@ == after_delete(old(self)@),
    {
        self.last_message_id = None;
    }

    /// Whether a heredoc block is open.
    pub fn in_heredoc(&self) -> (r: bool)
        ensures
            r == (self@.heredoc is Some),
    {
        self.heredoc.is_some()
    }

    /// The message to send when the subprocess has exited, successfully or not.
    pub fn exit_message(&self, success: bool, suppress_notice: bool) -> (r: Option<Action>)
        ensures
            match r {
                Some(a) => exit_notice(self@, success, suppress_notice) == Some(a@),
                None => exit_notice(self@, success, suppress_notice) is None,
            },
    {
        if success {
            if !self.buffer.as_str().is_empty() {
                let text = self.buffer.clone();
                let keyboard = copy_keyboard(&self.keyboard);
                Some(Action::SendMessage { text, keyboard })
            } else {
                None
            }
        } else if !suppress_notice {
            let keyboard: Vec<InlineKeyboardButton> = Vec::new();
            assert(keyboard_view(keyboard@) =~= Seq::empty());
            Some(Action::SendMessage { text: "Fatal Server Error".to_owned(), keyboard })
        } else {
            None
        }
    }
}

/// Reads the value of an `inline-button` directive into a button.
pub fn parse_button(value: &str) -> (r: Result<InlineKeyboardButton, HandleError>)
    ensures
        match r {
            Ok(b) => button_of(value@) == Ok::<ButtonModel, Fault>(b@),
            Err(e) => button_of(value@) == Err::<ButtonModel, Fault>(e@),
        },
{
    let (kind, rest) = match split_quoted(value) {
        Some(pair) => pair,
        None => return Err(HandleError::InlineButtonExpectedKind),
    };
    let (data, label) = match split_quoted(rest) {
        Some(pair) => pair,
        None => return Err(HandleError::InlineButtonExpectedData),
    };
    if same_text(kind.as_str(), "url") {
        Ok(InlineKeyboardButton { text: label.to_owned(), variant: InlineKeyboardVariant::Url(data) })
    } else if same_text(kind.as_str(), "callback") {
        Ok(
            InlineKeyboardButton {
                text: label.to_owned(),
                variant: InlineKeyboardVariant::Callback(data),
            },
        )
    } else {
        Err(HandleError::InvalidInlineButtonKind(kind))
    }
}

} // verus!
