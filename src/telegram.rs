//! The data of the chat service that the bridge reads and writes.
use vstd::prelude::*;

verus! {

/// The envelope of every answer of the chat service: `ok` tells success;
/// `result` is present when it succeeded and `description` when it did not.
#[derive(Debug, PartialEq, Eq)]
pub struct TelegramResponse<Data> {
    pub ok: bool,
    pub description: Option<String>,
    pub result: Option<Data>,
}

/// A request that the chat service turned down, with its description.
#[derive(Debug, PartialEq, Eq)]
pub struct TelegramError(pub String);

impl<Data> TelegramResponse<Data> {
    /// The result of a successful answer, or the description of a failed one.
    pub fn to_result(self) -> (r: Result<Data, TelegramError>)
        requires
            self.ok ==> self.result is Some,
            !self.ok ==> self.description is Some,
        ensures
            self.ok ==> r == Ok::<Data, TelegramError>(self.result->0),
            !self.ok ==> (r matches Err(e) && e.0 == self.description->0),
    {
        if self.ok {
            Ok(self.result.unwrap())
        } else {
            Err(TelegramError(self.description.unwrap()))
        }
    }
}

/// One update of the chat service: a message, or a tap on an inline button.
#[derive(Debug, PartialEq, Eq)]
pub struct UpdateResponse {
    pub update_id: u64,
    pub message: Option<Message>,
    pub callback_query: Option<CallbackQuery>,
}

/// A tap of the user on an inline keyboard button.
#[derive(Debug, PartialEq, Eq)]
pub struct CallbackQuery {
    pub id: String,
    pub data: String,
    pub message: Message,
}

/// A message of the user: text, a file, or a photo.
#[derive(Debug, PartialEq, Eq)]
pub struct Message {
    pub message_id: u64,
    pub chat: Chat,
    pub text: Option<String>,
    pub document: Option<Document>,
    pub photo: Option<Vec<PhotoSize>>,
}

/// The chat that a message belongs to.
#[derive(Debug, PartialEq, Eq)]
pub struct Chat {
    pub id: u64,
}

/// A file sent by the user. Its name and type come from the user and are not
/// to be trusted.
#[derive(Debug, PartialEq, Eq)]
pub struct Document {
    pub file_id: String,
    pub unsafe_file_name: Option<String>,
    pub unsafe_mime_type: Option<String>,
}

/// One resolution of a photo sent by the user.
#[derive(Debug, PartialEq, Eq)]
pub struct PhotoSize {
    pub file_id: String,
    pub width: u32,
    pub height: u32,
}

/// Where a file of the chat service can be downloaded from.
#[derive(Debug, PartialEq, Eq)]
pub struct File {
    pub file_path: Option<String>,
}

/// Where an inline keyboard button leads, in the contracts.
pub ghost enum ButtonTarget {
    Url(Seq<char>),
    Callback(Seq<char>),
}

/// An inline keyboard button, in the contracts.
pub ghost struct ButtonModel {
    pub text: Seq<char>,
    pub target: ButtonTarget,
}

/// Describes one inline button of the keyboard that a message should have.
#[derive(Debug, PartialEq, Eq)]
pub struct InlineKeyboardButton {
    pub text: String,
    pub variant: InlineKeyboardVariant,
}

/// An inline keyboard button either takes the user to a web page or sends a
/// callback back to the bot.
#[derive(Debug, PartialEq, Eq)]
pub enum InlineKeyboardVariant {
    Url(String),
    Callback(String),
}

impl View for InlineKeyboardVariant {
    type V = ButtonTarget;

    open spec fn view(&self) -> ButtonTarget {
        match self {
            InlineKeyboardVariant::Url(u) => ButtonTarget::Url(u@),
            InlineKeyboardVariant::Callback(c) => ButtonTarget::Callback(c@),
        }
    }
}

impl View for InlineKeyboardButton {
    type V = ButtonModel;

    open spec fn view(&self) -> ButtonModel {
        ButtonModel { text: self.text@, target: self.variant@ }
    }
}

/// One button as the chat service reads it: its label, the field that says
/// where it leads (`url` or `callback_data`), and that field's value.
#[derive(Debug, PartialEq, Eq)]
pub struct KeyboardEntry {
    pub text: String,
    pub field: &'static str,
    pub value: String,
}

/// A request that sends a message or changes a sent one: the method, the
/// fields that are present, and the buttons as a single row (absent when there
/// are none).
#[derive(Debug, PartialEq, Eq)]
pub struct MessageRequest {
    pub method: &'static str,
    pub chat_id: u64,
    pub message_id: Option<u64>,
    pub text: Option<String>,
    pub keyboard_row: Option<Vec<KeyboardEntry>>,
}

/// A button as the chat service reads it: label, field name and value.
pub open spec fn entry_of(b: ButtonModel) -> (Seq<char>, Seq<char>, Seq<char>) {
    match b.target {
        ButtonTarget::Url(u) => (b.text, "url"@, u),
        ButtonTarget::Callback(d) => (b.text, "callback_data"@, d),
    }
}

/// The views of a row of entries.
pub open spec fn row_view(row: Seq<KeyboardEntry>) -> Seq<(Seq<char>, Seq<char>, Seq<char>)> {
    row.map_values(|e: KeyboardEntry| (e.text@, e.field@, e.value@))
}

fn entry_for(b: &InlineKeyboardButton) -> (r: KeyboardEntry)
    ensures
        (r.text@, r.field@, r.value@) == entry_of(b@),
{
    match &b.variant {
        InlineKeyboardVariant::Url(u) => KeyboardEntry { text: b.text.clone(), field: "url", value: u.clone() },
        InlineKeyboardVariant::Callback(d) => KeyboardEntry {
            text: b.text.clone(),
            field: "callback_data",
            value: d.clone(),
        },
    }
}

/// Shapes the request that sends a message (`message_id` absent) or changes
/// message `message_id`: its text where one is given, and its keyboard. A new
/// message needs a text.
pub fn message_request(
    chat_id: u64,
    message_id: Option<u64>,
    text: Option<&str>,
    keyboard: &[InlineKeyboardButton],
) -> (r: MessageRequest)
    requires
        message_id is Some || text is Some,
    ensures
        r.method@ == if message_id is None {
            "sendMessage"@
        } else if text is Some {
            "editMessageText"@
        } else {
            "editMessageReplyMarkup"@
        },
        r.chat_id == chat_id,
        r.message_id == message_id,
        match r.text {
            Some(t) => text matches Some(x) && t@ == x@,
            None => text is None,
        },
        match r.keyboard_row {
            Some(row) => keyboard@.len() > 0 && row_view(row@) == keyboard_view(keyboard@).map_values(
                |b: ButtonModel| entry_of(b),
            ),
            None => keyboard@.len() == 0,
        },
{
    let method = message_method(message_id.is_some(), text.is_some());
    let text = match text {
        Some(t) => Some(t.to_owned()),
        None => None,
    };
    let keyboard_row = if keyboard.len() == 0 {
        None
    } else {
        let mut row: Vec<KeyboardEntry> = Vec::new();
        let mut i: usize = 0;
        while i < keyboard.len()
            invariant
                i <= keyboard@.len(),
                row@.len() == i,
                forall|j: int|
                    0 <= j < i ==> (#[trigger] row@[j].text@, row@[j].field@, row@[j].value@)
                        == entry_of(keyboard@[j]@),
            decreases keyboard@.len() - i,
        {
            row.push(entry_for(&keyboard[i]));
            i = i + 1;
        }
        assert(row_view(row@) =~= keyboard_view(keyboard@).map_values(|b: ButtonModel| entry_of(b)));
        Some(row)
    };
    MessageRequest { method, chat_id, message_id, text, keyboard_row }
}

/// The method of the chat service that sends a message (`editing` false) or
/// changes a sent one: its text and keyboard where a text is given, else only
/// its keyboard. A new message needs a text.
pub fn message_method(editing: bool, has_text: bool) -> (r: &'static str)
    requires
        editing || has_text,
    ensures
        r@ == if !editing {
            "sendMessage"@
        } else if has_text {
            "editMessageText"@
        } else {
            "editMessageReplyMarkup"@
        },
{
    if !editing {
        "sendMessage"
    } else if has_text {
        "editMessageText"
    } else {
        "editMessageReplyMarkup"
    }
}

/// The buttons of a keyboard, in the contracts.
pub open spec fn keyboard_view(k: Seq<InlineKeyboardButton>) -> Seq<ButtonModel> {
    k.map_values(|b: InlineKeyboardButton| b@)
}

impl InlineKeyboardButton {
    /// A copy of the button.
    pub fn duplicate(&self) -> (r: InlineKeyboardButton)
        ensures
            r@ == self@,
    {
        let variant = match &self.variant {
            InlineKeyboardVariant::Url(u) => InlineKeyboardVariant::Url(u.clone()),
            InlineKeyboardVariant::Callback(c) => InlineKeyboardVariant::Callback(c.clone()),
        };
        InlineKeyboardButton { text: self.text.clone(), variant }
    }
}

/// A copy of a keyboard.
pub fn copy_keyboard(k: &Vec<InlineKeyboardButton>) -> (r: Vec<InlineKeyboardButton>)
    ensures
        keyboard_view(r@) == keyboard_view(k@),
{
    let mut r: Vec<InlineKeyboardButton> = Vec::new();
    let mut i: usize = 0;
    while i < k.len()
        invariant
            i <= k@.len(),
            r@.len() == i,
            keyboard_view(r@) == keyboard_view(k@.take(i as int)),
        decreases k@.len() - i,
    {
        let ghost before = r@;
        r.push(k[i].duplicate());
        assert forall|j: int| 0 <= j < i + 1 implies keyboard_view(r@)[j] == keyboard_view(
            k@.take(i + 1),
        )[j] by {
            if j < i {
                assert(keyboard_view(before)[j] == keyboard_view(k@.take(i as int))[j]);
            }
        }
        assert(keyboard_view(r@) =~= keyboard_view(k@.take(i + 1)));
        i = i + 1;
    }
    assert(k@.take(i as int) == k@);
    r
}

} // verus!
