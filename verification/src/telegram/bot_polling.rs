//! Following the channel: what an update of the Telegram Bot API asks for.
//!
//! Files that are posted in the channel are added to the index, and a reply
//! `get` to a file is answered with its link.
use vstd::prelude::*;
use vstd::string::*;
use vstd::utf8::*;

use crate::constants::BOT_POLL_TIMEOUT_SECS;
use crate::constants::TELEGRAM_CHUNK_FILENAME_MARKER;
use crate::constants::TELEGRAM_CHUNK_SIZE;
use crate::decimal::decimal_i64;
use crate::decimal::decimal_int;
use crate::decimal::is_digit;
use crate::decimal::lemma_decimal_int;
use crate::outside::lowercase;
use crate::outside::percent_bytes;
use crate::outside::percent_encode;
use crate::outside::rfc3339;
use crate::outside::rfc3339_text;
use crate::outside::to_lowercase;
use crate::telegram::request::ApiRequest;
use crate::telegram::request::ApiRequestView;
use crate::telegram::request::Exchange;
use crate::telegram::request::Param;
use crate::telegram::request::ParamView;
use crate::telegram::request::method_url;
use crate::telegram::request::method_url_of;
use crate::telegram::request::number_param;
use crate::telegram::request::text_param;
use crate::telegram::service::composite_id;
use crate::telegram::service::composite_text;
use crate::telegram::service::redacted;
use crate::telegram::service::sanitize_bot_token_in_text;
use crate::telegram::types::Message;
use crate::telegram::types::TelegramResponse;
use crate::telegram::types::Update;
use crate::text::all_space;
use crate::text::ascii_lower;
use crate::text::begins;
use crate::text::contains;
use crate::text::endings_are_behind;
use crate::text::ends;
use crate::text::ends_with;
use crate::text::holds;
use crate::text::is_space;
use crate::text::join;
use crate::text::join3;
use crate::text::leading_characters_go;
use crate::text::occurs_at;
use crate::text::opt_view;
use crate::text::or_empty;
use crate::text::repeated;
use crate::text::same;
use crate::text::starts_with;
use crate::text::text_or_empty;
use crate::text::trailing_characters_go;
use crate::text::trim;
use crate::text::trim_end_matches;
use crate::text::trim_start_matches;
use crate::text::trimmed;
use crate::text::trimming_gives_the_text;
use crate::text::views;
use crate::text::what_is_held_is_inside;
use crate::text::without_leading;
use crate::text::without_trailing;

verus! {

/// The message was posted in the channel: one named `@name` by its user name,
/// any other by its number.
pub open spec fn from_channel(message: Message, channel: Seq<char>) -> bool {
    if begins(channel, "@"@) {
        match message.chat.username {
            Some(u) => u@ == without_leading(channel, '@'),
            None => false,
        }
    } else {
        decimal_int(message.chat.id as int) == channel
    }
}

/// Whether the message was posted in the channel.
pub fn message_from_configured_channel(message: &Message, channel_name: &str) -> (r: bool)
    ensures
        r == from_channel(*message, channel_name@),
{
    if starts_with(channel_name, "@") {
        match &message.chat.username {
            Some(u) => same(u.as_str(), trim_start_matches(channel_name, '@').as_str()),
            None => false,
        }
    } else {
        same(decimal_i64(message.chat.id).as_str(), channel_name)
    }
}

/// The file is none that a user posted on its own: too large for one message,
/// a manifest, or a chunk of a large upload.
pub open spec fn skipped(name: Seq<char>, size: int) -> bool {
    ||| size < 0
    ||| size >= TELEGRAM_CHUNK_SIZE
    ||| ends(name, ".manifest"@)
    ||| holds(name, TELEGRAM_CHUNK_FILENAME_MARKER@)
}

/// Whether a file of the channel stays out of the index.
pub fn should_skip_file_sync(file_name: &str, file_size: i64) -> (r: bool)
    ensures
        r == skipped(file_name@, file_size as int),
{
    file_size < 0 || file_size as u64 >= TELEGRAM_CHUNK_SIZE as u64 || ends_with(
        file_name,
        ".manifest",
    ) || contains(file_name, TELEGRAM_CHUNK_FILENAME_MARKER)
}

/// A file in a message: Telegram's identifier, its name and its size.
pub struct AttachedFile {
    pub file_id: String,
    pub file_name: String,
    pub file_size: i64,
}

/// The contents of an `AttachedFile`.
pub struct AttachedFileView {
    pub file_id: Seq<char>,
    pub file_name: Seq<char>,
    pub file_size: i64,
}

impl View for AttachedFile {
    type V = AttachedFileView;

    open spec fn view(&self) -> AttachedFileView {
        AttachedFileView {
            file_id: self.file_id@,
            file_name: self.file_name@,
            file_size: self.file_size,
        }
    }
}

/// A size that may be missing.
pub open spec fn size_or_zero(size: Option<i64>) -> i64 {
    match size {
        Some(n) => n,
        None => 0,
    }
}

/// The file of a message: its document, or the last size of its photo. A file
/// without a name gets one from the message.
pub open spec fn attached(message: Message) -> Option<AttachedFileView> {
    let id = decimal_int(message.message_id as int);
    match message.document {
        Some(doc) => Some(
            AttachedFileView {
                file_id: doc.file_id@,
                file_name: match doc.file_name {
                    Some(n) => n@,
                    None => "file_"@ + id,
                },
                file_size: size_or_zero(doc.file_size),
            },
        ),
        None => match message.photo {
            Some(sizes) => if sizes@.len() > 0 {
                Some(
                    AttachedFileView {
                        file_id: sizes@.last().file_id@,
                        file_name: "photo_"@ + id + ".jpg"@,
                        file_size: size_or_zero(sizes@.last().file_size),
                    },
                )
            } else {
                None
            },
            None => None,
        },
    }
}

/// The file of a message.
pub fn attached_file(message: &Message) -> (r: Option<AttachedFile>)
    ensures
        match r {
            Some(f) => attached(*message) == Some(f@),
            None => attached(*message) is None,
        },
{
    if let Some(doc) = &message.document {
        let file_name: String = match &doc.file_name {
            Some(n) => String::from_str(n.as_str()),
            None => join("file_", decimal_i64(message.message_id).as_str()),
        };
        let file_size: i64 = match doc.file_size {
            Some(n) => n,
            None => 0,
        };
        Some(AttachedFile { file_id: String::from_str(doc.file_id.as_str()), file_name, file_size })
    } else if let Some(sizes) = &message.photo {
        if sizes.len() == 0 {
            return None;
        }
        let photo = &sizes[sizes.len() - 1];
        let file_size: i64 = match photo.file_size {
            Some(n) => n,
            None => 0,
        };
        Some(
            AttachedFile {
                file_id: String::from_str(photo.file_id.as_str()),
                file_name: join3("photo_", decimal_i64(message.message_id).as_str(), ".jpg"),
                file_size,
            },
        )
    } else {
        None
    }
}

/// A file to add to the index.
#[derive(Debug)]
pub struct NewFile {
    pub composite_id: String,
    pub file_name: String,
    pub file_size: i64,
    /// When the message was posted, in seconds since 1970.
    pub date: Option<i64>,
}

/// `r` is the file that the message adds to the index, if it adds one.
pub open spec fn new_file_is(message: Message, channel: Seq<char>, r: Option<NewFile>) -> bool {
    match attached(message) {
        Some(f) => if from_channel(message, channel) && !skipped(f.file_name, f.file_size as int) {
            &&& r is Some
            &&& r->0.composite_id@ == composite_text(message.message_id as int, f.file_id)
            &&& r->0.file_name@ == f.file_name
            &&& r->0.file_size == f.file_size
            &&& r->0.date == message.date
        } else {
            r is None
        },
        None => r is None,
    }
}

/// The file that a message adds to the index: one of the channel that was
/// posted on its own.
pub fn handle_new_file(message: &Message, channel_name: &str) -> (r: Option<NewFile>)
    ensures
        new_file_is(*message, channel_name@, r),
{
    if !message_from_configured_channel(message, channel_name) {
        return None;
    }
    match attached_file(message) {
        Some(f) => {
            if should_skip_file_sync(f.file_name.as_str(), f.file_size) {
                None
            } else {
                Some(
                    NewFile {
                        composite_id: composite_id(message.message_id, f.file_id.as_str()),
                        file_name: f.file_name,
                        file_size: f.file_size,
                        date: message.date,
                    },
                )
            }
        },
        None => None,
    }
}

/// What listeners are told of a file.
#[derive(Debug)]
pub struct FileEvent {
    pub action: String,
    pub file_id: String,
    pub filename: Option<String>,
    pub filesize: Option<i64>,
    pub upload_date: Option<String>,
    pub short_id: Option<String>,
}

/// The point in time as text; nothing if it is not known or out of range.
pub open spec fn date_text(date: Option<i64>) -> Seq<char> {
    match date {
        Some(t) => or_empty(rfc3339_text(t, 0)),
        None => Seq::empty(),
    }
}

/// What listeners are told of a file that was added under a short identifier.
pub fn file_added(file: &NewFile, short_id: &str) -> (r: FileEvent)
    ensures
        r.action@ == "add"@,
        r.file_id@ == file.composite_id@,
        opt_view(r.filename) == Some(file.file_name@),
        r.filesize == Some(file.file_size),
        opt_view(r.upload_date) == Some(date_text(file.date)),
        opt_view(r.short_id) == Some(short_id@),
{
    let upload_date: String = match file.date {
        Some(t) => text_or_empty(&rfc3339(t, 0)),
        None => String::new(),
    };
    FileEvent {
        action: String::from_str("add"),
        file_id: String::from_str(file.composite_id.as_str()),
        filename: Some(String::from_str(file.file_name.as_str())),
        filesize: Some(file.file_size),
        upload_date: Some(upload_date),
        short_id: Some(String::from_str(short_id)),
    }
}

/// How a `get` reply is answered.
#[derive(Debug)]
pub enum GetReply {
    /// Not at all.
    Ignore,
    /// With this text, in this chat.
    Say { chat_id: i64, text: String },
    /// With a link to the file that a manifest describes. The name of that
    /// file has to be looked up in the manifest first.
    AskManifest { chat_id: i64, file_id: String, composite_id: String },
}

/// The path under which a file is downloaded.
pub open spec fn link_path(composite: Seq<char>, name: Seq<char>) -> Seq<char> {
    "/d/"@ + composite + "/"@ + percent_bytes(encode_utf8(name))
}

/// The answer that gives the link of a file.
pub open spec fn link_text(base_url: Seq<char>, composite: Seq<char>, name: Seq<char>) -> Seq<
    char,
> {
    if base_url.len() > 0 {
        "这是 '"@ + name + "' 的下载链接:\n"@ + without_trailing(base_url, '/') + link_path(
            composite,
            name,
        )
    } else {
        "这是 '"@ + name + "' 的下载路径 (请自行拼接域名):\n`"@ + link_path(composite, name) + "`"@
    }
}

/// The answer that gives the link of a file.
pub fn link_answer(base_url: &str, composite: &str, name: &str) -> (r: String)
    ensures
        r@ == link_text(base_url@, composite@, name@),
{
    let path: String = join(
        join3("/d/", composite, "/").as_str(),
        percent_encode(name).as_str(),
    );
    if !base_url.is_empty() {
        let head: String = join3("这是 '", name, "' 的下载链接:\n");
        join3(head.as_str(), trim_end_matches(base_url, '/').as_str(), path.as_str())
    } else {
        let head: String = join3("这是 '", name, "' 的下载路径 (请自行拼接域名):\n`");
        join3(head.as_str(), path.as_str(), "`")
    }
}

/// `r` is how the `get` reply `message` is answered.
pub open spec fn get_reply_is(
    message: Message,
    channel: Seq<char>,
    base_url: Seq<char>,
    r: GetReply,
) -> bool {
    match message.reply_to_message {
        None => r is Ignore,
        Some(replied) => if !from_channel(message, channel) || !from_channel(*replied, channel) {
            r is Ignore
        } else {
            match attached(*replied) {
                None => r matches GetReply::Say { chat_id, text } && chat_id == message.chat.id
                    && text@ == "请回复到一个文件/图片消息"@,
                Some(f) => {
                    let composite = composite_text(replied.message_id as int, f.file_id);
                    if ends(f.file_name, ".manifest"@) {
                        r matches GetReply::AskManifest { chat_id, file_id, composite_id } && chat_id
                            == message.chat.id && file_id@ == f.file_id && composite_id@
                            == composite
                    } else {
                        r matches GetReply::Say { chat_id, text } && chat_id == message.chat.id
                            && text@ == link_text(base_url, composite, f.file_name)
                    }
                },
            }
        },
    }
}

/// How a `get` reply is answered: with the link of the file that it replies
/// to, where both are of the channel.
pub fn handle_get_reply(message: &Message, channel_name: &str, base_url: &str) -> (r: GetReply)
    ensures
        get_reply_is(*message, channel_name@, base_url@, r),
{
    match &message.reply_to_message {
        None => GetReply::Ignore,
        Some(replied) => {
            if !message_from_configured_channel(message, channel_name)
                || !message_from_configured_channel(replied, channel_name) {
                return GetReply::Ignore;
            }
            match attached_file(replied) {
                None => GetReply::Say {
                    chat_id: message.chat.id,
                    text: String::from_str("请回复到一个文件/图片消息"),
                },
                Some(f) => {
                    let composite: String = composite_id(replied.message_id, f.file_id.as_str());
                    if ends_with(f.file_name.as_str(), ".manifest") {
                        GetReply::AskManifest {
                            chat_id: message.chat.id,
                            file_id: f.file_id,
                            composite_id: composite,
                        }
                    } else {
                        GetReply::Say {
                            chat_id: message.chat.id,
                            text: link_answer(base_url, composite.as_str(), f.file_name.as_str()),
                        }
                    }
                },
            }
        },
    }
}

/// The answer once the name in the manifest is known, or why it is not.
pub fn manifest_answer(composite: &str, name: Result<String, String>, base_url: &str) -> (r: String)
    ensures
        r@ == match name {
            Ok(n) => link_text(base_url@, composite@, n@),
            Err(e) => "错误：解析清单文件失败："@ + e@,
        },
{
    match name {
        Ok(n) => link_answer(base_url, composite, n.as_str()),
        Err(e) => join("错误：解析清单文件失败：", e.as_str()),
    }
}

/// What an update asks for.
#[derive(Debug)]
pub struct UpdateActions {
    pub new_file: Option<NewFile>,
    pub reply: GetReply,
}

/// The message of an update, of a chat or else of a channel.
pub open spec fn update_message(update: Update) -> Option<Message> {
    match update.message {
        Some(m) => Some(m),
        None => update.channel_post,
    }
}

/// `command` is the text of the message in lower case and without white space
/// around it, if it has a text; `r` is what the message asks for.
pub open spec fn message_actions_are(
    message: Message,
    command: Option<Seq<char>>,
    channel: Seq<char>,
    base_url: Seq<char>,
    r: UpdateActions,
) -> bool {
    &&& new_file_is(message, channel, r.new_file)
    &&& if command == Some("get"@) {
        get_reply_is(message, channel, base_url, r.reply)
    } else {
        r.reply is Ignore
    }
}

/// What a message asks for, given its text in lower case and without white
/// space around it.
pub fn message_actions(
    message: &Message,
    command: &Option<String>,
    channel_name: &str,
    base_url: &str,
) -> (r: UpdateActions)
    ensures
        message_actions_are(*message, opt_view(*command), channel_name@, base_url@, r),
{
    let new_file: Option<NewFile> = handle_new_file(message, channel_name);
    let get: bool = match command {
        Some(c) => same(c.as_str(), "get"),
        None => false,
    };
    let reply: GetReply = if get {
        handle_get_reply(message, channel_name, base_url)
    } else {
        GetReply::Ignore
    };
    UpdateActions { new_file, reply }
}

/// The text of the message in lower case and without white space around it.
pub open spec fn command_of(message: Message) -> Option<Seq<char>> {
    match message.text {
        Some(t) => Some(lowercase(trimmed(t@))),
        None => None,
    }
}

/// What an update asks for: a file to add, and an answer to give.
pub fn process_update(update: &Update, channel_name: &str, base_url: &str) -> (r: UpdateActions)
    ensures
        match update_message(*update) {
            Some(m) => message_actions_are(m, command_of(m), channel_name@, base_url@, r),
            None => r.new_file is None && r.reply is Ignore,
        },
        update_message(*update) matches Some(m) ==> m.text matches Some(t) ==> is_ascii_chars(
            trimmed(t@),
        ) ==> message_actions_are(
            m,
            Some(ascii_lower(trimmed(t@))),
            channel_name@,
            base_url@,
            r,
        ),
{
    let message: Option<&Message> = match &update.message {
        Some(m) => Some(m),
        None => match &update.channel_post {
            Some(m) => Some(m),
            None => None,
        },
    };
    match message {
        Some(m) => {
            let command: Option<String> = match &m.text {
                Some(t) => Some(to_lowercase(trim(t.as_str()).as_str())),
                None => None,
            };
            message_actions(m, &command, channel_name, base_url)
        },
        None => UpdateActions { new_file: None, reply: GetReply::Ignore },
    }
}

/// The request for updates from `offset` on.
pub open spec fn updates_request(token: Seq<char>, offset: i64, timeout: i64) -> ApiRequestView {
    ApiRequestView {
        url: method_url(token, "getUpdates"@),
        params: seq![
            ("offset"@, ParamView::Number(offset)),
            ("timeout"@, ParamView::Number(timeout)),
            ("allowed_updates"@, ParamView::List(seq!["message"@, "channel_post"@])),
        ],
        timeout_secs: Some((timeout + 10) as u64),
    }
}

/// The request for updates from `offset` on, held open for `timeout` seconds.
pub fn get_updates_request(bot_token: &str, offset: i64, timeout: i64) -> (r: ApiRequest)
    requires
        0 <= timeout,
    ensures
        r@ == updates_request(bot_token@, offset, timeout),
{
    let kinds: Vec<String> = vec![String::from_str("message"), String::from_str("channel_post")];
    proof {
        assert(views(kinds@) =~= seq!["message"@, "channel_post"@]);
    }
    let r: ApiRequest = ApiRequest {
        url: method_url_of(bot_token, "getUpdates"),
        params: vec![
            number_param("offset", offset),
            number_param("timeout", timeout),
            (String::from_str("allowed_updates"), Param::List(kinds)),
        ],
        timeout_secs: Some(timeout as u64 + 10),
    };
    proof {
        assert(r@.params =~= updates_request(bot_token@, offset, timeout).params);
    }
    r
}

/// The updates of an answer to `getUpdates`, or why there are none.
pub fn get_updates(bot_token: &str, answer: Exchange<TelegramResponse<Vec<Update>>>) -> (r: Result<
    Vec<Update>,
    String,
>)
    ensures
        match answer {
            Exchange::Failed(e) => r matches Err(t) && t@ == "Request error: "@ + redacted(
                e@,
                bot_token@,
            ),
            Exchange::Unreadable(e) => r matches Err(t) && t@ == "Parse error: "@ + e@,
            Exchange::Answer(data) => if data.ok {
                r matches Ok(us) && us@ == match data.result {
                    Some(v) => v@,
                    None => Seq::<Update>::empty(),
                }
            } else {
                r matches Err(t) && t@ == "getUpdates error: "@ + or_empty(
                    opt_view(data.description),
                )
            },
        },
        match updates_of(bot_token@, answer) {
            Ok(us) => r matches Ok(v) && v@ == us,
            Err(t) => r matches Err(e) && e@ == t,
        },
{
    match answer {
        Exchange::Failed(e) => Err(
            join("Request error: ", sanitize_bot_token_in_text(e.as_str(), bot_token).as_str()),
        ),
        Exchange::Unreadable(e) => Err(join("Parse error: ", e.as_str())),
        Exchange::Answer(data) => {
            if data.ok {
                match data.result {
                    Some(v) => Ok(v),
                    None => Ok(Vec::new()),
                }
            } else {
                Err(join("getUpdates error: ", text_or_empty(&data.description).as_str()))
            }
        },
    }
}

/// The request that posts a text in a chat.
pub fn send_message_request(bot_token: &str, chat_id: i64, text: &str) -> (r: ApiRequest)
    ensures
        r@ == (ApiRequestView {
            url: method_url(bot_token@, "sendMessage"@),
            params: seq![
                ("chat_id"@, ParamView::Number(chat_id)),
                ("text"@, ParamView::Text(text@)),
            ],
            timeout_secs: None,
        }),
{
    let r: ApiRequest = ApiRequest {
        url: method_url_of(bot_token, "sendMessage"),
        params: vec![number_param("chat_id", chat_id), text_param("text", text)],
        timeout_secs: None,
    };
    proof {
        assert(r@.params =~= seq![
            ("chat_id"@, ParamView::Number(chat_id)),
            ("text"@, ParamView::Text(text@)),
        ]);
    }
    r
}

/// How long polling pauses after a failure, in seconds.
pub const POLL_RETRY_SECS: u64 = 5;

/// The offset behind a batch of updates: one more than the last of them, or
/// `offset` if there is none.
pub open spec fn offset_behind(offset: i64, updates: Seq<Update>) -> int {
    if updates.len() == 0 {
        offset as int
    } else {
        updates.last().update_id + 1
    }
}

/// The state of polling: the first update that was not seen yet.
#[derive(Debug)]
pub struct Poller {
    pub offset: i64,
}

/// What to do after a request for updates.
#[derive(Debug)]
pub enum PollStep {
    /// Process these updates, then ask for the next.
    Process(Vec<Update>),
    /// Wait this many seconds, then ask again.
    Wait(u64),
}

impl Poller {
    /// The request that finds out which updates are pending.
    pub fn pending_request(bot_token: &str) -> (r: ApiRequest)
        ensures
            r@ == updates_request(bot_token@, -1i64, 0),
    {
        get_updates_request(bot_token, -1, 0)
    }

    /// Begins to poll behind all pending updates, which are dropped; from the
    /// start if they could not be asked for.
    pub fn start(pending: &Result<Vec<Update>, String>) -> (r: Self)
        requires
            pending matches Ok(us) ==> us@.len() > 0 ==> us@.last().update_id < i64::MAX,
        ensures
            r.offset == match *pending {
                Ok(us) => offset_behind(0, us@),
                Err(_) => 0,
            },
    {
        match pending {
            Ok(us) => {
                if us.len() > 0 {
                    Poller { offset: us[us.len() - 1].update_id + 1 }
                } else {
                    Poller { offset: 0 }
                }
            },
            Err(_) => Poller { offset: 0 },
        }
    }

    /// The next request for updates.
    pub fn request(&self, bot_token: &str) -> (r: ApiRequest)
        ensures
            r@ == updates_request(bot_token@, self.offset, BOT_POLL_TIMEOUT_SECS as i64),
    {
        get_updates_request(bot_token, self.offset, BOT_POLL_TIMEOUT_SECS as i64)
    }

    /// Takes the outcome of a request and says what to do. The updates that
    /// are to be processed will not be asked for again.
    pub fn step(&mut self, outcome: Result<Vec<Update>, String>) -> (r: PollStep)
        requires
            outcome matches Ok(us) ==> us@.len() > 0 ==> us@.last().update_id < i64::MAX,
        ensures
            match outcome {
                Ok(us) => r == PollStep::Process(us) && final(self).offset == offset_behind(
                    old(self).offset,
                    us@,
                ),
                Err(_) => r == PollStep::Wait(POLL_RETRY_SECS) && final(self).offset == old(
                    self,
                ).offset,
            },
    {
        match outcome {
            Ok(us) => {
                if us.len() > 0 {
                    self.offset = us[us.len() - 1].update_id + 1;
                }
                PollStep::Process(us)
            },
            Err(_) => PollStep::Wait(POLL_RETRY_SECS),
        }
    }
}

/// No update is asked for twice: behind a batch of updates in ascending
/// order, as Telegram sends them, every one of them lies before the offset.
pub proof fn processed_updates_stay_behind(offset: i64, updates: Seq<Update>)
    requires
        forall|i: int, j: int|
            0 <= i <= j < updates.len() ==> (#[trigger] updates[i]).update_id <= (
            #[trigger] updates[j]).update_id,
    ensures
        forall|i: int|
            0 <= i < updates.len() ==> (#[trigger] updates[i]).update_id < offset_behind(
                offset,
                updates,
            ),
{
    assert forall|i: int| 0 <= i < updates.len() implies (#[trigger] updates[i]).update_id
        < offset_behind(offset, updates) by {
        assert(updates[i].update_id <= updates[updates.len() - 1].update_id);
    }
}

/// The file of a message is its document, whatever else it holds: under its
/// own name if it has one, and with its own size.
pub proof fn documents_are_attached(message: Message)
    requires
        message.document is Some,
    ensures
        ({
            let doc = message.document->0;
            &&& attached(message) is Some
            &&& attached(message)->0.file_id == doc.file_id@
            &&& doc.file_name is Some ==> attached(message)->0.file_name == doc.file_name->0@
            &&& doc.file_name is None ==> attached(message)->0.file_name == "file_"@ + decimal_int(
                message.message_id as int,
            )
            &&& doc.file_size is Some ==> attached(message)->0.file_size == doc.file_size->0
            &&& doc.file_size is None ==> attached(message)->0.file_size == 0
        }),
{
}

/// The file of a photo is the last of its sizes, however many there are: its
/// identifier and its size are those of that one. As Telegram lists the sizes
/// in ascending order, no size of the photo is larger.
pub proof fn photos_are_attached_in_full(message: Message)
    requires
        message.document is None,
        message.photo is Some,
        message.photo->0@.len() > 0,
    ensures
        ({
            let sizes = message.photo->0@;
            let n = sizes.len() - 1;
            &&& attached(message) is Some
            &&& attached(message)->0.file_id == sizes[n].file_id@
            &&& sizes[n].file_size is Some ==> attached(message)->0.file_size
                == sizes[n].file_size->0
            &&& sizes[n].file_size is None ==> attached(message)->0.file_size == 0
            &&& attached(message)->0.file_name == "photo_"@ + decimal_int(
                message.message_id as int,
            ) + ".jpg"@
            &&& (forall|i: int, j: int|
                0 <= i <= j < sizes.len() ==> (#[trigger] sizes[i]).file_size is Some && (
                #[trigger] sizes[j]).file_size is Some && sizes[i].file_size->0
                    <= sizes[j].file_size->0) ==> forall|i: int|
                0 <= i < sizes.len() ==> (#[trigger] sizes[i]).file_size->0 <= attached(
                    message,
                )->0.file_size
        }),
{
    let sizes = message.photo->0@;
    assert(sizes.last() == sizes[sizes.len() - 1]);
}

/// A message without a document and without a photo has no file.
pub proof fn other_messages_have_no_file(message: Message)
    requires
        message.document is None,
        message.photo is None || message.photo->0@.len() == 0,
    ensures
        attached(message) is None,
{
}

/// A channel named `@name` is the one with that user name and no other; any
/// other channel is the one with that number and no other.
pub proof fn channels_are_known_by_name_or_number(message: Message, name: Seq<char>, id: i64)
    requires
        name.len() > 0 ==> name[0] != '@',
    ensures
        from_channel(message, seq!['@'] + name) <==> message.chat.username is Some
            && message.chat.username->0@ == name,
        from_channel(message, decimal_int(id as int)) <==> message.chat.id == id,
{
    reveal_strlit("@");
    let channel = seq!['@'] + name;
    assert("@"@ =~= seq!['@']);
    assert(channel.subrange(0, 1) =~= "@"@);
    assert(begins(channel, "@"@));
    leading_characters_go(name, '@', 1);
    assert(channel =~= repeated('@', 1) + name);
    let number = decimal_int(id as int);
    lemma_decimal_int(id as int);
    lemma_decimal_int(message.chat.id as int);
    assert(!begins(number, "@"@)) by {
        if begins(number, "@"@) {
            assert(number.subrange(0, 1)[0] == '@');
            assert(is_digit(number[0]) || number[0] == '-');
        }
    }
}

/// A file stays out of the index if and only if its size is negative or that
/// of a chunk or more, its name ends like one of a manifest, or it holds the
/// mark of a chunk. Every other file is taken up.
pub proof fn only_own_documents_are_skipped(name: Seq<char>, size: int)
    ensures
        skipped(name, size) <==> (size < 0 || size >= 20_447_232 || (exists|stem: Seq<char>|
            name == #[trigger] (stem + ".manifest"@)) || (exists|a: Seq<char>, b: Seq<char>|
            name == #[trigger] (a + ".tgstate-part"@ + b))),
{
    endings_are_behind(name, ".manifest"@);
    what_is_held_is_inside(name, ".tgstate-part"@);
}

/// A file that is posted in the channel is added to the index, and no other:
/// under the number of its message and Telegram's identifier, with its name,
/// its size and the date of the message.
pub proof fn posted_files_are_added(message: Message, channel: Seq<char>, r: Option<NewFile>)
    requires
        new_file_is(message, channel, r),
    ensures
        r is Some <==> attached(message) is Some && from_channel(message, channel) && !skipped(
            attached(message)->0.file_name,
            attached(message)->0.file_size as int,
        ),
        r matches Some(f) ==> {
            &&& f.composite_id@ == decimal_int(message.message_id as int) + ":"@ + attached(
                message,
            )->0.file_id
            &&& f.file_name@ == attached(message)->0.file_name
            &&& f.file_size == attached(message)->0.file_size
            &&& f.date == message.date
        },
{
}

/// The path of a file ends with its identifier and its encoded name, below
/// `/d/`; the answer to a reply gives it below the public address, without a
/// slash too many, or alone where that address is not set.
pub proof fn links_lead_to_the_file(
    base: Seq<char>,
    slashes: nat,
    composite: Seq<char>,
    name: Seq<char>,
)
    requires
        base.len() > 0,
        base.last() != '/',
    ensures
        ({
            let path = "/d/"@ + composite + "/"@ + percent_bytes(encode_utf8(name));
            &&& ends(link_text(base + repeated('/', slashes), composite, name), base + path)
            &&& holds(link_text(Seq::empty(), composite, name), path)
            &&& holds(link_text(base + repeated('/', slashes), composite, name), name)
            &&& holds(link_text(Seq::empty(), composite, name), name)
        }),
{
    let path = "/d/"@ + composite + "/"@ + percent_bytes(encode_utf8(name));
    let full = base + repeated('/', slashes);
    trailing_characters_go(base, '/', slashes);
    let one = link_text(full, composite, name);
    assert(one.subrange(one.len() - (base + path).len(), one.len() as int) =~= base + path);
    let two = link_text(Seq::empty(), composite, name);
    let head = "这是 '"@;
    let middle = "' 的下载路径 (请自行拼接域名):\n`"@;
    let at = (head.len() + name.len() + middle.len()) as int;
    assert(two.subrange(at, at + path.len()) =~= path);
    assert(occurs_at(two, path, at));
    let k = head.len() as int;
    assert(one.subrange(k, k + name.len()) =~= name);
    assert(occurs_at(one, name, k));
    assert(two.subrange(k, k + name.len()) =~= name);
    assert(occurs_at(two, name, k));
}

/// A reply is answered if and only if it and what it replies to are of the
/// channel: with the link of the file there, in the chat that it came from.
/// The name of a large upload is asked for first.
pub proof fn replies_are_answered(
    message: Message,
    replied: Message,
    channel: Seq<char>,
    base_url: Seq<char>,
    r: GetReply,
)
    requires
        message.reply_to_message is Some,
        *message.reply_to_message->0 == replied,
        get_reply_is(message, channel, base_url, r),
    ensures
        r is Ignore <==> !from_channel(message, channel) || !from_channel(replied, channel),
        r matches GetReply::Say { chat_id, text } ==> {
            &&& chat_id == message.chat.id
            &&& attached(replied) is Some ==> text@ == link_text(
                base_url,
                decimal_int(replied.message_id as int) + ":"@ + attached(replied)->0.file_id,
                attached(replied)->0.file_name,
            ) && !ends(attached(replied)->0.file_name, ".manifest"@)
        },
        r matches GetReply::AskManifest { chat_id, file_id, composite_id } ==> {
            &&& chat_id == message.chat.id
            &&& attached(replied) is Some
            &&& ends(attached(replied)->0.file_name, ".manifest"@)
            &&& file_id@ == attached(replied)->0.file_id
            &&& composite_id@ == decimal_int(replied.message_id as int) + ":"@ + file_id@
        },
{
}

/// A message that replies to nothing is not answered.
pub proof fn messages_that_reply_to_nothing_are_ignored(
    message: Message,
    channel: Seq<char>,
    base_url: Seq<char>,
    r: GetReply,
)
    requires
        message.reply_to_message is None,
        get_reply_is(message, channel, base_url, r),
    ensures
        r is Ignore,
{
}

/// The word `get`, in small letters or capitals and with white space around it,
/// asks for the link; a message that says anything else asks for nothing, but
/// may add a file all the same.
pub proof fn get_asks_for_the_link(
    message: Message,
    command: Option<Seq<char>>,
    channel: Seq<char>,
    base_url: Seq<char>,
    r: UpdateActions,
)
    requires
        message_actions_are(message, command, channel, base_url, r),
    ensures
        command == Some(seq!['g', 'e', 't']) ==> get_reply_is(message, channel, base_url, r.reply),
        command != Some(seq!['g', 'e', 't']) ==> r.reply is Ignore,
        new_file_is(message, channel, r.new_file),
{
    reveal_strlit("get");
    assert("get"@ =~= seq!['g', 'e', 't']);
}

/// The message of an update is that of the chat, else that of the channel.
pub proof fn updates_hold_a_message(update: Update)
    ensures
        update.message is Some ==> update_message(update) == update.message,
        update.message is None ==> update_message(update) == update.channel_post,
{
}

/// No update is left out: polling goes on right behind the last update of a
/// batch, however large the batch is, and where it was if there was none.
pub proof fn no_update_is_left_out(offset: i64, updates: Seq<Update>, next: int)
    ensures
        updates.len() > 0 && next > updates[updates.len() - 1].update_id ==> offset_behind(
            offset,
            updates,
        ) <= next,
        updates.len() > 0 ==> offset_behind(offset, updates) > updates[updates.len() - 1].update_id,
        updates.len() == 0 ==> offset_behind(offset, updates) == offset,
{
}

/// A request for updates asks from the offset on, for messages and posts, and
/// waits ten seconds longer than Telegram holds it open.
pub proof fn requests_for_updates(token: Seq<char>, offset: i64, timeout: i64)
    requires
        0 <= timeout,
    ensures
        ({
            let r = updates_request(token, offset, timeout);
            &&& r.url == "https://api.telegram.org/bot"@ + token + "/"@ + "getUpdates"@
            &&& r.params.len() == 3
            &&& r.params.contains(("offset"@, ParamView::Number(offset)))
            &&& r.params.contains(("timeout"@, ParamView::Number(timeout)))
            &&& r.params.contains(
                ("allowed_updates"@, ParamView::List(seq!["message"@, "channel_post"@])),
            )
            &&& r.timeout_secs is Some
            &&& r.timeout_secs->0 - timeout == 10
        }),
{
    let ps = updates_request(token, offset, timeout).params;
    assert(ps[0] == ("offset"@, ParamView::Number(offset)));
    assert(ps[1] == ("timeout"@, ParamView::Number(timeout)));
    assert(ps[2] == ("allowed_updates"@, ParamView::List(seq!["message"@, "channel_post"@])));
}

/// The date of a file is written out where it is known.
pub proof fn dates_are_written_out(date: Option<i64>)
    ensures
        date is None ==> date_text(date).len() == 0,
        date matches Some(t) && rfc3339_text(t, 0) is Some ==> date_text(date) == rfc3339_text(
            date->0,
            0,
        )->0,
        date matches Some(t) && rfc3339_text(t, 0) is None ==> date_text(date).len() == 0,
{
}

/// A channel with any number of at signs is known by the name behind them; a
/// channel without one by the number of the chat, written out.
pub proof fn channels_are_known_by_what_is_written(message: Message, channel: Seq<char>, n: nat)
    requires
        channel.len() > 0 ==> channel[0] != '@',
    ensures
        n > 0 ==> (from_channel(message, repeated('@', n) + channel) <==> message.chat.username
            is Some && message.chat.username->0@ == channel),
        from_channel(message, channel) <==> channel == decimal_int(message.chat.id as int),
{
    reveal_strlit("@");
    assert("@"@ =~= seq!['@']);
    leading_characters_go(channel, '@', n);
    let whole = repeated('@', n) + channel;
    if n > 0 {
        assert(whole.subrange(0, 1) =~= "@"@);
    }
    if begins(channel, "@"@) {
        assert(channel.subrange(0, 1)[0] == '@');
    }
}

/// Who asks for the link of a message without a file is told so.
pub proof fn replies_without_a_file_are_told_so(
    message: Message,
    replied: Message,
    channel: Seq<char>,
    base_url: Seq<char>,
    r: GetReply,
)
    requires
        message.reply_to_message is Some,
        *message.reply_to_message->0 == replied,
        get_reply_is(message, channel, base_url, r),
        from_channel(message, channel),
        from_channel(replied, channel),
    ensures
        r is AskManifest <==> attached(replied) is Some && ends(
            attached(replied)->0.file_name,
            ".manifest"@,
        ),
        attached(replied) is None ==> (r matches GetReply::Say { chat_id, text } && chat_id
            == message.chat.id && text@ == "请回复到一个文件/图片消息"@),
{
}

/// The command of a message is its text in lower case, without the white space
/// around it; a message without text has none.
pub proof fn commands_are_texts_without_white_space(
    message: Message,
    a: Seq<char>,
    word: Seq<char>,
    b: Seq<char>,
)
    requires
        all_space(a),
        all_space(b),
        word.len() > 0 ==> !is_space(word[0]) && !is_space(word.last()),
    ensures
        message.text matches Some(t) && t@ == a + word + b ==> command_of(message) == Some(
            lowercase(word),
        ),
        message.text is None ==> command_of(message) is None,
{
    trimming_gives_the_text(a, word, b);
}

/// The poll asks again five seconds after a failure, and waits half a minute
/// for updates.
pub proof fn polls_are_paced()
    ensures
        POLL_RETRY_SECS == 5,
        BOT_POLL_TIMEOUT_SECS == 30,
{
}

/// The updates that an answer brings, or why there are none.
pub open spec fn updates_of(
    token: Seq<char>,
    answer: Exchange<TelegramResponse<Vec<Update>>>,
) -> Result<Seq<Update>, Seq<char>> {
    match answer {
        Exchange::Failed(e) => Err("Request error: "@ + redacted(e@, token)),
        Exchange::Unreadable(e) => Err("Parse error: "@ + e@),
        Exchange::Answer(data) => if data.ok {
            Ok(
                match data.result {
                    Some(v) => v@,
                    None => Seq::empty(),
                },
            )
        } else {
            Err("getUpdates error: "@ + or_empty(opt_view(data.description)))
        },
    }
}

/// All updates of an answer are taken, in order, and none where it brings
/// none. A failure is told, that of the connection without the token.
pub proof fn answers_bring_their_updates(
    token: Seq<char>,
    answer: Exchange<TelegramResponse<Vec<Update>>>,
)
    ensures
        updates_of(token, answer) is Ok <==> answer is Answer && answer->Answer_0.ok,
        answer matches Exchange::Answer(d) && d.ok && d.result is Some ==> updates_of(token, answer)
            == Ok::<Seq<Update>, Seq<char>>(answer->Answer_0.result->0@),
        answer matches Exchange::Answer(d) && d.ok && d.result is None ==> updates_of(token, answer)
            == Ok::<Seq<Update>, Seq<char>>(Seq::empty()),
        answer matches Exchange::Failed(e) ==> updates_of(token, answer) == Err::<
            Seq<Update>,
            Seq<char>,
        >("Request error: "@ + redacted(e@, token)),
        answer matches Exchange::Unreadable(e) ==> updates_of(token, answer) == Err::<
            Seq<Update>,
            Seq<char>,
        >("Parse error: "@ + e@),
        answer matches Exchange::Answer(d) && !d.ok && d.description is Some ==> updates_of(
            token,
            answer,
        ) == Err::<Seq<Update>, Seq<char>>(
            "getUpdates error: "@ + answer->Answer_0.description->0@,
        ),
{
}

/// The answer names the file and gives its link: below the public address, or
/// as a path alone where none is set.
pub proof fn answers_give_the_link(
    base: Seq<char>,
    slashes: nat,
    composite: Seq<char>,
    name: Seq<char>,
)
    requires
        base.len() > 0,
        base.last() != '/',
    ensures
        link_text(base + repeated('/', slashes), composite, name) == "这是 '"@ + name
            + "' 的下载链接:\n"@ + (base + "/d/"@ + composite + "/"@ + percent_bytes(
            encode_utf8(name),
        )),
        link_text(Seq::empty(), composite, name) == "这是 '"@ + name
            + "' 的下载路径 (请自行拼接域名):\n`"@ + ("/d/"@ + composite + "/"@ + percent_bytes(
            encode_utf8(name),
        )) + "`"@,
{
    trailing_characters_go(base, '/', slashes);
    let path = "/d/"@ + composite + "/"@ + percent_bytes(encode_utf8(name));
    assert(base + path =~= base + "/d/"@ + composite + "/"@ + percent_bytes(encode_utf8(name)));
    assert("这是 '"@ + name + "' 的下载链接:\n"@ + base + path =~= "这是 '"@ + name
        + "' 的下载链接:\n"@ + (base + path));
}

} // verus!
