use telegram_bridge::{
    Action, ChatActor, ChatState, HandleError, InlineKeyboardButton, InlineKeyboardVariant,
};

fn send(text: &str) -> Action {
    Action::SendMessage { text: text.to_string(), keyboard: vec![] }
}

#[test]
fn end_to_end_text_then_send() {
    let mut actor = ChatActor::new();
    actor.receive(b"hello\nworld\n//send\n");
    assert_eq!(actor.next_action(), Ok(Some(send("hello\nworld\n"))));
    actor.sent(7);
    assert_eq!(actor.next_action(), Ok(None));
    actor.close();
    assert_eq!(actor.next_action(), Ok(None));
    assert_eq!(actor.exit_message(true, false), None);
}

#[test]
fn end_to_end_heredoc_then_send() {
    let mut actor = ChatActor::new();
    actor.receive(b"//heredoc END\nline one\nline two\nEND\n//send\n");
    assert_eq!(actor.next_action(), Ok(Some(send("line one\nline two\n"))));
    actor.sent(1);
    assert_eq!(actor.next_action(), Ok(None));
}

#[test]
fn heredoc_keeps_directives_verbatim() {
    let mut state = ChatState::new();
    assert_eq!(state.apply_line("//heredoc EOF"), Ok(None));
    assert!(state.in_heredoc());
    assert_eq!(state.apply_line("//send"), Ok(None));
    assert_eq!(state.apply_line("  //edit"), Ok(None));
    assert_eq!(state.apply_line("EOF and more"), Ok(None));
    assert!(!state.in_heredoc());
    assert_eq!(state.apply_line("//send"), Ok(Some(send("//send\n  //edit\n"))));
}

#[test]
fn lines_split_across_chunks_are_joined() {
    let mut actor = ChatActor::new();
    actor.receive(b"hel");
    assert_eq!(actor.next_action(), Ok(None));
    actor.receive(b"lo\r\n//se");
    assert_eq!(actor.next_action(), Ok(None));
    actor.receive(b"nd\n");
    assert_eq!(actor.next_action(), Ok(Some(send("hello\n"))));
}

#[test]
fn multibyte_character_split_across_chunks() {
    let mut actor = ChatActor::new();
    let bytes = "héllo\n//send\n".as_bytes();
    actor.receive(&bytes[..2]);
    assert_eq!(actor.next_action(), Ok(None));
    actor.receive(&bytes[2..]);
    assert_eq!(actor.next_action(), Ok(Some(send("héllo\n"))));
}

#[test]
fn send_twice_leaves_nothing_behind() {
    let mut state = ChatState::new();
    assert_eq!(state.apply_line("//inline-button url https://example.org Visit"), Ok(None));
    assert_eq!(state.apply_line("first"), Ok(None));
    let first = state.apply_line("//send");
    assert_eq!(
        first,
        Ok(Some(Action::SendMessage {
            text: "first\n".to_string(),
            keyboard: vec![InlineKeyboardButton {
                text: " Visit".to_string(),
                variant: InlineKeyboardVariant::Url("https://example.org".to_string()),
            }],
        }))
    );
    state.sent(10);
    assert_eq!(state.apply_line("//send"), Ok(Some(Action::NothingToSend)));
    assert_eq!(state.apply_line("second"), Ok(None));
    assert_eq!(state.apply_line("//send"), Ok(Some(send("second\n"))));
}

#[test]
fn buffer_is_kept_until_send_succeeds() {
    let mut state = ChatState::new();
    assert_eq!(state.apply_line("pending"), Ok(None));
    assert_eq!(state.apply_line("//send"), Ok(Some(send("pending\n"))));
    assert_eq!(state.apply_line("//send"), Ok(Some(send("pending\n"))));
}

#[test]
fn empty_send_calls_nothing() {
    let mut state = ChatState::new();
    assert_eq!(state.apply_line("//send"), Ok(Some(Action::NothingToSend)));
    assert_eq!(state.apply_line("later"), Ok(None));
    assert_eq!(state.apply_line("//send"), Ok(Some(send("later\n"))));
}

#[test]
fn edit_delete_remove_before_send_fail() {
    let mut state = ChatState::new();
    assert_eq!(state.apply_line("//edit"), Err(HandleError::EditedUnsentMessage));
    assert_eq!(state.apply_line("//delete"), Err(HandleError::DeletedUnsentMessage));
    assert_eq!(
        state.apply_line("//remove-inline-keyboard"),
        Err(HandleError::RemovedInlineKeyboardForUnsetMessage)
    );
}

#[test]
fn edit_delete_remove_after_send() {
    let mut state = ChatState::new();
    state.apply_line("hi").unwrap();
    assert_eq!(state.apply_line("//send"), Ok(Some(send("hi\n"))));
    state.sent(5);
    state.apply_line("changed").unwrap();
    state.apply_line("//inline-button callback \"a b\" Tap me").unwrap();
    assert_eq!(
        state.apply_line("//edit"),
        Ok(Some(Action::EditMessage {
            message_id: 5,
            text: Some("changed\n".to_string()),
            keyboard: vec![InlineKeyboardButton {
                text: " Tap me".to_string(),
                variant: InlineKeyboardVariant::Callback("a b".to_string()),
            }],
        }))
    );
    state.edited();
    assert_eq!(
        state.apply_line("//edit"),
        Ok(Some(Action::EditMessage { message_id: 5, text: None, keyboard: vec![] }))
    );
    state.apply_line("kept").unwrap();
    assert_eq!(
        state.apply_line("//remove-inline-keyboard"),
        Ok(Some(Action::RemoveKeyboard { message_id: 5 }))
    );
    assert_eq!(state.apply_line("//delete"), Ok(Some(Action::DeleteMessage { message_id: 5 })));
    state.deleted();
    assert_eq!(state.apply_line("//delete"), Err(HandleError::DeletedUnsentMessage));
    assert_eq!(state.apply_line("//send"), Ok(Some(send("kept\n"))));
}

#[test]
fn single_line_directives_take_trimmed_values() {
    let mut state = ChatState::new();
    assert_eq!(
        state.apply_line("//send-file  /tmp/report.pdf  "),
        Ok(Some(Action::SendFile { path: "/tmp/report.pdf".to_string() }))
    );
    assert_eq!(
        state.apply_line("//send-photo /tmp/cat.png"),
        Ok(Some(Action::SendPhoto { path: "/tmp/cat.png".to_string() }))
    );
    assert_eq!(
        state.apply_line("//chat-action typing"),
        Ok(Some(Action::ChatAction { action: "typing".to_string() }))
    );
    assert_eq!(
        state.apply_line("//download-file AgADBAAD"),
        Ok(Some(Action::DownloadFile { file_id: "AgADBAAD".to_string() }))
    );
}

#[test]
fn inline_button_errors() {
    let mut state = ChatState::new();
    assert_eq!(state.apply_line("//inline-button"), Err(HandleError::InlineButtonExpectedKind));
    assert_eq!(state.apply_line("//inline-button url"), Err(HandleError::InlineButtonExpectedData));
    assert_eq!(
        state.apply_line("//inline-button phone 123 Call"),
        Err(HandleError::InvalidInlineButtonKind("phone".to_string()))
    );
}

#[test]
fn unclosed_heredoc_is_an_error() {
    let mut actor = ChatActor::new();
    actor.receive(b"//heredoc END\nline\n");
    assert_eq!(actor.next_action(), Ok(None));
    actor.close();
    assert_eq!(actor.next_action(), Err(HandleError::UnclosedHeredoc));
}

#[test]
fn invalid_utf8_is_an_error() {
    let mut actor = ChatActor::new();
    actor.receive(b"ok\n\xff\xfe\n");
    assert!(matches!(actor.next_action(), Err(HandleError::Utf8Error(_))));
}

#[test]
fn last_line_without_newline_counts_at_close() {
    let mut actor = ChatActor::new();
    actor.receive(b"bye\n//send");
    assert_eq!(actor.next_action(), Ok(None));
    actor.close();
    assert_eq!(actor.next_action(), Ok(Some(send("bye\n"))));
}

#[test]
fn clean_exit_flushes_the_buffer() {
    let mut actor = ChatActor::new();
    actor.receive(b"left over\n");
    actor.close();
    assert_eq!(actor.next_action(), Ok(None));
    assert_eq!(actor.exit_message(true, false), Some(send("left over\n")));
}

#[test]
fn clean_exit_flushes_a_blank_line() {
    let mut actor = ChatActor::new();
    actor.receive(b"\n");
    actor.close();
    assert_eq!(actor.next_action(), Ok(None));
    assert_eq!(actor.exit_message(true, false), Some(send("\n")));
}

#[test]
fn clean_exit_flushes_the_buttons_too() {
    let mut state = ChatState::new();
    state.apply_line("//inline-button callback yes Yes").unwrap();
    state.apply_line("sure?").unwrap();
    assert_eq!(
        state.exit_message(true, false),
        Some(Action::SendMessage {
            text: "sure?\n".to_string(),
            keyboard: vec![InlineKeyboardButton {
                text: " Yes".to_string(),
                variant: InlineKeyboardVariant::Callback("yes".to_string()),
            }],
        })
    );
}

#[test]
fn abnormal_exit_sends_notice_unless_suppressed() {
    let mut actor = ChatActor::new();
    actor.receive(b"//inline-button url https://example.org Site\n");
    assert_eq!(actor.next_action(), Ok(None));
    assert_eq!(actor.exit_message(false, false), Some(send("Fatal Server Error")));
    assert_eq!(actor.exit_message(false, true), None);
}
