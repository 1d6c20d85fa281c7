//! The bot as the service runs it.
use vstd::prelude::*;
use vstd::string::*;

use crate::config::AppSettingsMap;
use crate::config::bot_ready;
use crate::config::bots_need_a_token_and_a_channel;
use crate::config::is_bot_ready;
use crate::config::setting;
use crate::text::all_space;
use crate::text::blank;
use crate::text::opt_view;
use crate::text::or_empty;

verus! {

/// The bot as the service runs it.
#[derive(Debug)]
pub struct BotState {
    pub bot_ready: bool,
    pub bot_running: bool,
    pub bot_error: Option<String>,
    pub app_settings: AppSettingsMap,
}

/// What a bot is started with.
#[derive(Debug)]
pub struct BotStart {
    pub token: String,
    pub channel: String,
    pub base_url: String,
}

/// The settings name a bot and a channel.
pub open spec fn can_start(m: Map<Seq<char>, Option<Seq<char>>>) -> bool {
    &&& or_empty(setting(m, "BOT_TOKEN"@)).len() > 0
    &&& or_empty(setting(m, "CHANNEL_NAME"@)).len() > 0
}

/// `s` is what a bot with these settings is started with.
pub open spec fn starts_with_settings(m: Map<Seq<char>, Option<Seq<char>>>, s: BotStart) -> bool {
    &&& s.token@ == or_empty(setting(m, "BOT_TOKEN"@))
    &&& s.channel@ == or_empty(setting(m, "CHANNEL_NAME"@))
    &&& s.base_url@ == or_empty(setting(m, "BASE_URL"@))
}

/// Why a bot does not start.
pub open spec fn start_error() -> Seq<char> {
    "BOT_TOKEN or CHANNEL_NAME not configured"@
}

impl BotState {
    /// A bot that has not been started.
    pub fn new(app_settings: AppSettingsMap, bot_ready: bool) -> (r: Self)
        ensures
            r.bot_ready == bot_ready,
            !r.bot_running,
            r.bot_error is None,
            r.app_settings@ == app_settings@,
    {
        BotState { bot_ready, bot_running: false, bot_error: None, app_settings }
    }

    /// Starts the bot, if its settings name a bot and a channel.
    pub fn start_bot(&mut self) -> (r: Result<BotStart, String>)
        ensures
            final(self).bot_ready == old(self).bot_ready,
            final(self).app_settings@ == old(self).app_settings@,
            if can_start(old(self).app_settings@) {
                &&& r matches Ok(s) && starts_with_settings(old(self).app_settings@, s)
                &&& final(self).bot_running
                &&& final(self).bot_error is None
            } else {
                &&& r matches Err(e) && e@ == start_error()
                &&& final(self).bot_running == old(self).bot_running
                &&& opt_view(final(self).bot_error) == opt_view(old(self).bot_error)
            },
            is_started(*old(self), *final(self), r),
    {
        let token: String = self.app_settings.text("BOT_TOKEN");
        let channel: String = self.app_settings.text("CHANNEL_NAME");
        if token.as_str().is_empty() || channel.as_str().is_empty() {
            return Err(String::from_str("BOT_TOKEN or CHANNEL_NAME not configured"));
        }
        let base_url: String = self.app_settings.text("BASE_URL");
        self.bot_running = true;
        self.bot_error = None;
        Ok(BotStart { token, channel, base_url })
    }

    /// Stops the bot.
    pub fn stop_bot(&mut self)
        ensures
            !final(self).bot_running,
            final(self).bot_ready == old(self).bot_ready,
            opt_view(final(self).bot_error) == opt_view(old(self).bot_error),
            final(self).app_settings@ == old(self).app_settings@,
    {
        self.bot_running = false;
    }

    /// Puts new settings in force. Without `restart` the bot runs on as it
    /// is, and an error of it stays. With it the bot is stopped, and started
    /// again if it is ready: here is what it is started with.
    pub fn apply_runtime_settings(&mut self, current: AppSettingsMap, restart: bool) -> (r: Option<
        BotStart,
    >)
        ensures
            final(self).app_settings@ == current@,
            final(self).bot_ready == bot_ready(current@),
            if !restart {
                &&& r is None
                &&& final(self).bot_running == old(self).bot_running
                &&& opt_view(final(self).bot_error) == opt_view(old(self).bot_error)
            } else {
                &&& final(self).bot_running == bot_ready(current@)
                &&& final(self).bot_error is None
                &&& if bot_ready(current@) {
                    r matches Some(s) && starts_with_settings(current@, s)
                } else {
                    r is None
                }
            },
            are_applied(*old(self), current@, restart, *final(self), r),
    {
        let ready: bool = is_bot_ready(&current);
        if !restart {
            self.app_settings = current;
            self.bot_ready = ready;
            return None;
        }
        self.stop_bot();
        self.app_settings = current;
        self.bot_ready = ready;
        self.bot_error = None;
        if ready {
            proof {
                ready_bots_start(current@);
            }
            match self.start_bot() {
                Ok(s) => return Some(s),
                Err(e) => {
                    self.bot_error = Some(e);
                },
            }
        }
        None
    }
}

/// A bot that is ready can be started.
pub proof fn ready_bots_start(m: Map<Seq<char>, Option<Seq<char>>>)
    requires
        bot_ready(m),
    ensures
        can_start(m),
{
    assert(blank(Seq::<char>::empty()));
    let token = or_empty(setting(m, "BOT_TOKEN"@));
    let channel = or_empty(setting(m, "CHANNEL_NAME"@));
    if token.len() == 0 {
        assert(token =~= Seq::<char>::empty());
    }
    if channel.len() == 0 {
        assert(channel =~= Seq::<char>::empty());
    }
}

/// A bot can be started if and only if token and channel are set, and it is
/// started with exactly these and the public address.
pub proof fn bots_start_with_their_settings(m: Map<Seq<char>, Option<Seq<char>>>, s: BotStart)
    requires
        starts_with_settings(m, s),
    ensures
        can_start(m) <==> s.token@.len() > 0 && s.channel@.len() > 0,
        setting(m, "BOT_TOKEN"@) matches Some(v) ==> s.token@ == v,
        setting(m, "CHANNEL_NAME"@) matches Some(v) ==> s.channel@ == v,
        setting(m, "BASE_URL"@) matches Some(v) ==> s.base_url@ == v,
        setting(m, "BOT_TOKEN"@) is None ==> s.token@.len() == 0,
        setting(m, "CHANNEL_NAME"@) is None ==> s.channel@.len() == 0,
        setting(m, "BASE_URL"@) is None ==> s.base_url@.len() == 0,
{
}

/// `after` is the bot `before`, started if it can be, and `r` what it is
/// started with, or why it is not.
pub open spec fn is_started(
    before: BotState,
    after: BotState,
    r: Result<BotStart, String>,
) -> bool {
    &&& after.bot_ready == before.bot_ready
    &&& after.app_settings@ == before.app_settings@
    &&& if can_start(before.app_settings@) {
        &&& r matches Ok(s) && starts_with_settings(before.app_settings@, s)
        &&& after.bot_running
        &&& after.bot_error is None
    } else {
        &&& r matches Err(e) && e@ == start_error()
        &&& after.bot_running == before.bot_running
        &&& opt_view(after.bot_error) == opt_view(before.bot_error)
    }
}

/// A bot starts if and only if its token and its channel are set and not
/// empty; one that does not start runs or rests as before.
pub proof fn bots_start_if_they_can(before: BotState, after: BotState, r: Result<BotStart, String>)
    requires
        is_started(before, after, r),
    ensures
        r is Ok <==> (setting(before.app_settings@, "BOT_TOKEN"@) matches Some(t) && t.len() > 0)
            && (setting(before.app_settings@, "CHANNEL_NAME"@) matches Some(c) && c.len() > 0),
        r is Ok ==> after.bot_running && after.bot_error is None,
        r matches Ok(s) ==> Some(s.token@) == setting(before.app_settings@, "BOT_TOKEN"@) && Some(
            s.channel@,
        ) == setting(before.app_settings@, "CHANNEL_NAME"@),
        r is Err ==> after.bot_running == before.bot_running,
        r matches Err(e) ==> e@ == "BOT_TOKEN or CHANNEL_NAME not configured"@,
{
}

/// `after` is the bot `before` with new settings in force, and `r` what it is
/// started with, if it is.
pub open spec fn are_applied(
    before: BotState,
    current: Map<Seq<char>, Option<Seq<char>>>,
    restart: bool,
    after: BotState,
    r: Option<BotStart>,
) -> bool {
    &&& after.app_settings@ == current
    &&& after.bot_ready == bot_ready(current)
    &&& if !restart {
        &&& r is None
        &&& after.bot_running == before.bot_running
        &&& opt_view(after.bot_error) == opt_view(before.bot_error)
    } else {
        &&& after.bot_running == bot_ready(current)
        &&& after.bot_error is None
        &&& if bot_ready(current) {
            r matches Some(s) && starts_with_settings(current, s)
        } else {
            r is None
        }
    }
}

/// New settings are in force at once. They start the bot only on a restart,
/// and only if it has a token and a channel; a restart without them stops it,
/// and without a restart it runs or rests as before.
pub proof fn new_settings_restart_the_bot(
    before: BotState,
    current: Map<Seq<char>, Option<Seq<char>>>,
    restart: bool,
    after: BotState,
    r: Option<BotStart>,
)
    requires
        are_applied(before, current, restart, after, r),
    ensures
        after.app_settings@ == current,
        r is Some <==> restart && setting(current, "BOT_TOKEN"@) is Some && !all_space(
            setting(current, "BOT_TOKEN"@)->0,
        ) && setting(current, "CHANNEL_NAME"@) is Some && !all_space(
            setting(current, "CHANNEL_NAME"@)->0,
        ),
        restart ==> after.bot_running == (r is Some) && after.bot_error is None,
        !restart ==> after.bot_running == before.bot_running && opt_view(after.bot_error)
            == opt_view(before.bot_error),
        r matches Some(s) ==> Some(s.token@) == setting(current, "BOT_TOKEN"@) && Some(s.channel@)
            == setting(current, "CHANNEL_NAME"@),
{
    bots_need_a_token_and_a_channel(current);
}

} // verus!
