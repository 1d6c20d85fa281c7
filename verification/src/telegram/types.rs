//! What the Telegram Bot API sends.
use vstd::prelude::*;

verus! {

/// The envelope of every reply.
#[derive(Debug)]
pub struct TelegramResponse<T> {
    pub ok: bool,
    pub result: Option<T>,
    pub description: Option<String>,
}

/// One entry of `getUpdates`.
#[derive(Debug)]
pub struct Update {
    pub update_id: i64,
    pub message: Option<Message>,
    pub channel_post: Option<Message>,
}

/// A message, of a chat or of a channel.
#[derive(Debug)]
pub struct Message {
    pub message_id: i64,
    pub chat: Chat,
    pub text: Option<String>,
    pub document: Option<Document>,
    pub photo: Option<Vec<PhotoSize>>,
    pub date: Option<i64>,
    pub reply_to_message: Option<Box<Message>>,
}

/// Where a message was posted.
#[derive(Debug)]
pub struct Chat {
    pub id: i64,
    pub username: Option<String>,
}

/// A file attached to a message.
#[derive(Debug)]
pub struct Document {
    pub file_id: String,
    pub file_name: Option<String>,
    pub file_size: Option<i64>,
}

/// One of the sizes in which a photo is kept.
#[derive(Debug)]
pub struct PhotoSize {
    pub file_id: String,
    pub file_size: Option<i64>,
    pub width: Option<i32>,
    pub height: Option<i32>,
}

/// The reply to `getFile`.
#[derive(Debug)]
pub struct TelegramFile {
    pub file_id: String,
    pub file_path: Option<String>,
}

/// The reply to `getMe`.
#[derive(Debug)]
pub struct BotUser {
    pub username: Option<String>,
}

} // verus!
