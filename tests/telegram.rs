use telegram_bridge::{
    message_method, message_request, InlineKeyboardButton, InlineKeyboardVariant, KeyboardEntry,
    MessageRequest, TelegramError, TelegramResponse,
};

#[test]
fn to_result_gives_result_on_success() {
    let response = TelegramResponse { ok: true, description: None, result: Some(42u64) };
    assert_eq!(response.to_result(), Ok(42));
}

#[test]
fn to_result_gives_description_on_failure() {
    let response: TelegramResponse<u64> = TelegramResponse {
        ok: false,
        description: Some("Bad Request: chat not found".to_string()),
        result: None,
    };
    assert_eq!(
        response.to_result(),
        Err(TelegramError("Bad Request: chat not found".to_string()))
    );
}

#[test]
fn message_method_by_intent() {
    assert_eq!(message_method(false, true), "sendMessage");
    assert_eq!(message_method(true, true), "editMessageText");
    assert_eq!(message_method(true, false), "editMessageReplyMarkup");
}

#[test]
fn message_request_for_new_message_with_buttons() {
    let keyboard = vec![
        InlineKeyboardButton {
            text: "Site".to_string(),
            variant: InlineKeyboardVariant::Url("https://example.org".to_string()),
        },
        InlineKeyboardButton {
            text: "Yes".to_string(),
            variant: InlineKeyboardVariant::Callback("y".to_string()),
        },
    ];
    assert_eq!(
        message_request(12, None, Some("hi\n"), &keyboard),
        MessageRequest {
            method: "sendMessage",
            chat_id: 12,
            message_id: None,
            text: Some("hi\n".to_string()),
            keyboard_row: Some(vec![
                KeyboardEntry {
                    text: "Site".to_string(),
                    field: "url",
                    value: "https://example.org".to_string(),
                },
                KeyboardEntry { text: "Yes".to_string(), field: "callback_data", value: "y".to_string() },
            ]),
        }
    );
}

#[test]
fn message_request_to_strip_keyboard() {
    assert_eq!(
        message_request(12, Some(3), None, &[]),
        MessageRequest {
            method: "editMessageReplyMarkup",
            chat_id: 12,
            message_id: Some(3),
            text: None,
            keyboard_row: None,
        }
    );
}
