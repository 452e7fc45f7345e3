use telegram_bridge::{
    download_report, event_to_args, input_line, CallbackQuery, Chat, Document, HandleEvent,
    Message, PhotoSize,
};

fn message(chat: u64) -> Message {
    Message { message_id: 1, chat: Chat { id: chat }, text: None, document: None, photo: None }
}

fn strings(v: &[&str]) -> Vec<String> {
    v.iter().map(|s| s.to_string()).collect()
}

#[test]
fn callback_becomes_callback_directive() {
    let event = HandleEvent::Callback(CallbackQuery {
        id: "q1".to_string(),
        data: "choice-2".to_string(),
        message: message(3),
    });
    assert_eq!(event_to_args(&event, true), strings(&["//tg-callback", "choice-2"]));
}

#[test]
fn text_is_split_into_words_for_a_command_line() {
    let mut m = message(3);
    m.text = Some("  /start  now\tplease ".to_string());
    let event = HandleEvent::Message(m);
    assert_eq!(event_to_args(&event, true), strings(&["/start", "now", "please"]));
    assert_eq!(event_to_args(&event, false), strings(&["  /start  now\tplease "]));
}

#[test]
fn text_cannot_pass_for_a_directive() {
    let mut m = message(3);
    m.text = Some("//tg-document --file-id x".to_string());
    let event = HandleEvent::Message(m);
    assert_eq!(event_to_args(&event, false), strings(&["/tg-document --file-id x"]));
    assert_eq!(event_to_args(&event, true), strings(&["/tg-document", "--file-id", "x"]));
}

#[test]
fn document_with_name_and_type() {
    let mut m = message(3);
    m.document = Some(Document {
        file_id: "BQACAgI-xyz_1".to_string(),
        unsafe_file_name: Some("my report (final).pdf".to_string()),
        unsafe_mime_type: Some("Application/PDF; charset=binary".to_string()),
    });
    assert_eq!(
        event_to_args(&HandleEvent::Message(m), false),
        strings(&[
            "//tg-document",
            "--file-id",
            "BQACAgI-xyz_1",
            "--file-name",
            "myreportfinal.pdf",
            "--mime-type",
            "application/pdf",
        ])
    );
}

#[test]
fn document_with_bad_type_leaves_it_out() {
    let mut m = message(3);
    m.document = Some(Document {
        file_id: "abc".to_string(),
        unsafe_file_name: Some(String::new()),
        unsafe_mime_type: Some("not a type".to_string()),
    });
    assert_eq!(
        event_to_args(&HandleEvent::Message(m), false),
        strings(&["//tg-document", "--file-id", "abc"])
    );
}

#[test]
fn document_name_that_cleans_to_nothing_stays_empty() {
    let mut m = message(3);
    m.document = Some(Document {
        file_id: "abc".to_string(),
        unsafe_file_name: Some("()".to_string()),
        unsafe_mime_type: None,
    });
    assert_eq!(
        event_to_args(&HandleEvent::Message(m), false),
        strings(&["//tg-document", "--file-id", "abc", "--file-name", ""])
    );
}

#[test]
fn photo_sizes_ascend_by_area() {
    let mut m = message(3);
    m.photo = Some(vec![
        PhotoSize { file_id: "big".to_string(), width: 1280, height: 960 },
        PhotoSize { file_id: "small".to_string(), width: 90, height: 67 },
        PhotoSize { file_id: "wide".to_string(), width: 320, height: 240 },
        PhotoSize { file_id: "tall".to_string(), width: 240, height: 320 },
    ]);
    assert_eq!(
        event_to_args(&HandleEvent::Message(m), false),
        strings(&[
            "//tg-photo", "small", "90", "67", "wide", "320", "240", "tall", "240", "320", "big",
            "1280", "960",
        ])
    );
}

#[test]
fn photo_area_does_not_overflow() {
    let mut m = message(3);
    m.photo = Some(vec![
        PhotoSize { file_id: "huge".to_string(), width: u32::MAX, height: u32::MAX },
        PhotoSize { file_id: "zero".to_string(), width: 0, height: 7 },
    ]);
    assert_eq!(
        event_to_args(&HandleEvent::Message(m), false),
        strings(&["//tg-photo", "zero", "0", "7", "huge", "4294967295", "4294967295"])
    );
}

#[test]
fn unknown_message_gives_sentinel() {
    assert_eq!(event_to_args(&HandleEvent::Message(message(3)), false), strings(&["//tg-unknown"]));
}

#[test]
fn input_line_joins_with_spaces() {
    assert_eq!(input_line(&strings(&["//tg-callback", "yes"])), "//tg-callback yes\n");
    assert_eq!(input_line(&strings(&[])), "\n");
}

#[test]
fn download_report_line() {
    assert_eq!(download_report("/tmp/abc123"), "//tg-file-download /tmp/abc123\n");
}
