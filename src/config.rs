//! The policy schema: what a guild configures, and the process-wide settings.

use vstd::prelude::*;
use crate::pattern::Pattern;

verus! {

pub type ChannelId = u64;

pub type RoleId = u64;

pub type GuildId = u64;

pub type EmojiId = u64;

pub type StickerId = u64;

/// What an action looks like to a contract.
pub ghost enum ActionView {
    Delete,
    SendMessage { channel_id: ChannelId, content: Seq<char>, requires_armed: bool },
    SendLog { channel_id: ChannelId },
}

pub enum MessageFilterAction {
    /// Delete the offending piece of content.
    Delete,
    /// Send a message to a channel.
    SendMessage { channel_id: ChannelId, content: String, requires_armed: bool },
    /// Log the violation to a channel.
    SendLog { channel_id: ChannelId },
}

impl View for MessageFilterAction {
    type V = ActionView;

    open spec fn view(&self) -> ActionView {
        match self {
            MessageFilterAction::Delete => ActionView::Delete,
            MessageFilterAction::SendMessage { channel_id, content, requires_armed } =>
                ActionView::SendMessage {
                channel_id: *channel_id,
                content: content@,
                requires_armed: *requires_armed,
            },
            MessageFilterAction::SendLog { channel_id } => ActionView::SendLog {
                channel_id: *channel_id,
            },
        }
    }
}

impl MessageFilterAction {
    /// A copy of the action.
    pub fn duplicate(&self) -> (r: MessageFilterAction)
        ensures
            r@ == self@,
    {
        match self {
            MessageFilterAction::Delete => MessageFilterAction::Delete,
            MessageFilterAction::SendMessage { channel_id, content, requires_armed } =>
                MessageFilterAction::SendMessage {
                channel_id: *channel_id,
                content: content.clone(),
                requires_armed: *requires_armed,
            },
            MessageFilterAction::SendLog { channel_id } => MessageFilterAction::SendLog {
                channel_id: *channel_id,
            },
        }
    }
}

/// The views of a list of actions.
pub open spec fn actions_view(actions: Seq<MessageFilterAction>) -> Seq<ActionView> {
    actions.map_values(|a: MessageFilterAction| a@)
}

#[derive(PartialEq, Eq, Structural, Clone, Copy, Debug)]
pub enum FilterMode {
    /// Only the listed values pass.
    AllowList,
    /// The listed values are refused.
    DenyList,
}

pub struct Scoping {
    /// Which channels to exclude.
    pub exclude_channels: Option<Vec<ChannelId>>,
    /// Which channels to include.
    pub include_channels: Option<Vec<ChannelId>>,
    /// Which roles to exclude.
    pub exclude_roles: Option<Vec<RoleId>>,
}

#[allow(inconsistent_fields)]
pub enum MessageFilterRule {
    /// Any of a list of words, at word boundaries; compiled from the list.
    Words { words: Pattern },
    /// Any of a list of literals, anywhere; compiled from the list.
    Substring { substrings: Pattern },
    /// Any of a list of regular expressions.
    Regex { regexes: Vec<Pattern> },
    /// Text with an excessive density of combining marks.
    Zalgo,
    MimeType {
        mode: FilterMode,
        types: Vec<String>,
        /// What to do with an attachment that declares no MIME type: let it
        /// pass, or reject it out of caution.
        allow_unknown: bool,
    },
    Invite { mode: FilterMode, invites: Vec<String> },
    Link { mode: FilterMode, domains: Vec<String> },
    StickerId { mode: FilterMode, stickers: Vec<StickerId> },
    /// Sticker names, compiled from a list of literals.
    StickerName { stickers: Pattern },
    /// Custom emoji names, compiled from a list of literals.
    EmojiName { names: Pattern },
}

pub struct SpamFilter {
    /// How many emoji in a given interval constitute spam.
    pub emoji: Option<u8>,
    /// How many duplicates in a given interval constitute spam.
    pub duplicates: Option<u8>,
    /// How many links in a given interval constitute spam.
    pub links: Option<u8>,
    /// How many attachments in a given interval constitute spam.
    pub attachments: Option<u8>,
    /// How many spoilers in a given interval constitute spam.
    pub spoilers: Option<u8>,
    /// How many mentions in a given interval constitute spam.
    pub mentions: Option<u8>,
    /// How long, in seconds, to consider messages for spam.
    pub interval: u16,
    /// What actions to take when a message is considered spam.
    pub actions: Option<Vec<MessageFilterAction>>,
    /// Scoping rules to apply to the spam filter.
    pub scoping: Option<Scoping>,
}

pub struct MessageFilter {
    pub name: String,
    /// Which rules to match messages against.
    pub rules: Vec<MessageFilterRule>,
    /// What scoping to use for this filter.
    pub scoping: Option<Scoping>,
    /// What actions to take when a message matches the filter.
    pub actions: Option<Vec<MessageFilterAction>>,
}

#[allow(inconsistent_fields)]
pub enum ReactionFilterRule {
    /// Filter default (Unicode) emoji.
    Default { mode: FilterMode, emoji: Vec<String> },
    /// Filter custom emoji by id.
    CustomId { mode: FilterMode, emoji: Vec<EmojiId> },
    /// Filter custom emoji by name, compiled from a list of literals.
    CustomName { names: Pattern },
}

pub struct ReactionFilter {
    pub name: String,
    pub rules: Vec<ReactionFilterRule>,
    pub scoping: Option<Scoping>,
    pub actions: Option<Vec<MessageFilterAction>>,
}

pub struct SlashCommands {
    /// Which roles are allowed to use slash commands.
    pub roles: Vec<RoleId>,
}

pub struct Notifications {
    /// Which channel to send notifications to.
    pub channel: ChannelId,
    /// Which roles to ping for notifications.
    pub ping_roles: Option<Vec<RoleId>>,
}

pub enum UsernameFilterRule {
    /// Any of a list of literals, compiled from the list.
    Substring { substrings: Pattern },
    /// Any of a list of regular expressions.
    Regex { regexes: Vec<Pattern> },
}

pub enum UsernameFilterAction {
    SendMessage { channel_id: ChannelId, content: String },
}

impl View for UsernameFilterAction {
    type V = (ChannelId, Seq<char>);

    open spec fn view(&self) -> (ChannelId, Seq<char>) {
        match self {
            UsernameFilterAction::SendMessage { channel_id, content } => (*channel_id, content@),
        }
    }
}

impl UsernameFilterAction {
    /// A copy of the action.
    pub fn duplicate(&self) -> (r: UsernameFilterAction)
        ensures
            r@ == self@,
    {
        match self {
            UsernameFilterAction::SendMessage { channel_id, content } => UsernameFilterAction::SendMessage {
                channel_id: *channel_id,
                content: content.clone(),
            },
        }
    }
}

pub struct UsernameFilter {
    /// Rules to apply to usernames.
    pub rules: Vec<UsernameFilterRule>,
    /// Actions to take when a username matches one of the rules.
    pub actions: Vec<UsernameFilterAction>,
}

pub struct GuildConfig {
    pub notifications: Option<Notifications>,
    pub slash_commands: Option<SlashCommands>,
    pub default_scoping: Option<Scoping>,
    pub default_actions: Option<Vec<MessageFilterAction>>,
    pub messages: Option<Vec<MessageFilter>>,
    pub reactions: Option<Vec<ReactionFilter>>,
    pub spam: Option<SpamFilter>,
    pub usernames: Option<UsernameFilter>,
    /// Whether bot-authored content is evaluated at all.
    pub include_bots: bool,
}

pub struct InfluxConfig {
    pub url: String,
    pub database: String,
    pub token: String,
    pub report_every_n: usize,
}

pub struct SentryConfig {
    pub url: String,
}

pub struct Config {
    pub guild_config_dir: String,
    pub active_guilds: Vec<GuildId>,
    pub influx: Option<InfluxConfig>,
    pub sentry: Option<SentryConfig>,
    pub armed_by_default: bool,
}

} // verus!
