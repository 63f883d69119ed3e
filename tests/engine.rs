use chrysanthemum::actions::resolve;
use chrysanthemum::command::{first_failed_filter, plan_command_update, CommandKind, CommandPlan, CommandState};
use chrysanthemum::compile::{substring_regex, word_regex};
use chrysanthemum::config::{
    GuildConfig, MessageFilter, MessageFilterAction, MessageFilterRule, Notifications, ReactionFilter,
    ReactionFilterRule, Scoping, SlashCommands, SpamFilter, UsernameFilter, UsernameFilterAction, UsernameFilterRule,
};
use chrysanthemum::engine::{Engine, MessageEvent, ReactionEvent, UsernameEvent};
use chrysanthemum::filters::FilterResult;
use chrysanthemum::rules::{MessageSample, ReactionEmoji, Reason};
use chrysanthemum::scoping::applies;
use chrysanthemum::spam::{SignalCounts, SpamDetector, SpamSignal, SpamViolation};
use chrysanthemum::validate::{validate_guild_config, ConfigProblem, ScopeSite};

fn words(list: &[&str]) -> Vec<String> {
    list.iter().map(|w| w.to_string()).collect()
}

fn empty_guild() -> GuildConfig {
    GuildConfig {
        notifications: None,
        slash_commands: None,
        default_scoping: None,
        default_actions: None,
        messages: None,
        reactions: None,
        spam: None,
        usernames: None,
        include_bots: false,
    }
}

fn no_scoping() -> Scoping {
    Scoping { exclude_channels: None, include_channels: None, exclude_roles: None }
}

fn spam_filter(interval: u16) -> SpamFilter {
    SpamFilter {
        emoji: None,
        duplicates: None,
        links: None,
        attachments: None,
        spoilers: None,
        mentions: None,
        interval,
        actions: None,
        scoping: None,
    }
}

fn words_filter(name: &str, list: &[&str], actions: Option<Vec<MessageFilterAction>>) -> MessageFilter {
    MessageFilter {
        name: name.to_string(),
        rules: vec![MessageFilterRule::Words { words: word_regex(&words(list)).unwrap() }],
        scoping: None,
        actions,
    }
}

fn message(guild: u64, channel: u64, text: &str) -> MessageEvent {
    MessageEvent {
        guild,
        channel,
        author: 9,
        author_roles: vec![],
        author_is_bot: false,
        mentions: 0,
        sample: MessageSample {
            text: text.to_string(),
            mime_types: vec![],
            sticker_ids: vec![],
            sticker_names: vec![],
            emoji_names: vec![],
        },
    }
}

fn is_delete(a: &MessageFilterAction) -> bool {
    matches!(a, MessageFilterAction::Delete)
}

fn armed_message() -> MessageFilterAction {
    MessageFilterAction::SendMessage { channel_id: 3, content: "warned".to_string(), requires_armed: true }
}

#[test]
fn scoping_include_exclude_and_roles() {
    let only = Scoping { exclude_channels: None, include_channels: Some(vec![1, 2]), exclude_roles: None };
    assert!(only.applies(1, &vec![]));
    assert!(!only.applies(3, &vec![]));
    let exclude = Scoping { exclude_channels: Some(vec![1]), include_channels: None, exclude_roles: Some(vec![77]) };
    assert!(!exclude.applies(1, &vec![]));
    assert!(exclude.applies(2, &vec![5]));
    assert!(!exclude.applies(2, &vec![5, 77]));
    assert!(no_scoping().applies(123, &vec![77]));
    assert!(applies(None, 1, &vec![77]));
    assert_eq!(exclude.applies(2, &vec![5]), exclude.applies(2, &vec![5]));
}

#[test]
fn validation_rejects_both_channel_lists() {
    let mut g = empty_guild();
    g.default_scoping = Some(Scoping { exclude_channels: Some(vec![1]), include_channels: Some(vec![2]), exclude_roles: None });
    assert_eq!(validate_guild_config(&g), Err(vec![ConfigProblem::BothChannelLists(ScopeSite::Default)]));
}

#[test]
fn validation_rejects_empty_exclude_roles() {
    let mut g = empty_guild();
    g.default_actions = Some(vec![MessageFilterAction::Delete]);
    let mut f = words_filter("f", &["x"], None);
    f.scoping = Some(Scoping { exclude_channels: None, include_channels: None, exclude_roles: Some(vec![]) });
    g.messages = Some(vec![f]);
    assert_eq!(
        validate_guild_config(&g),
        Err(vec![ConfigProblem::EmptyExcludeRoles(ScopeSite::MessageFilter(0))])
    );
}

#[test]
fn validation_accepts_a_sound_policy() {
    let mut g = empty_guild();
    g.default_actions = Some(vec![MessageFilterAction::Delete]);
    g.messages = Some(vec![words_filter("f", &["x"], None)]);
    assert_eq!(validate_guild_config(&g), Ok(()));
    assert_eq!(validate_guild_config(&empty_guild()), Ok(()));
}

#[test]
fn validation_reports_every_problem_in_order() {
    let mut g = empty_guild();
    g.slash_commands = Some(SlashCommands { roles: vec![] });
    g.default_scoping = Some(Scoping { exclude_channels: Some(vec![]), include_channels: Some(vec![]), exclude_roles: Some(vec![]) });
    g.default_actions = Some(vec![]);
    g.notifications = Some(Notifications { channel: 1, ping_roles: Some(vec![]) });
    let mut spam = spam_filter(10);
    spam.scoping = Some(no_scoping());
    g.spam = Some(spam);
    g.usernames = Some(UsernameFilter { rules: vec![], actions: vec![] });
    g.messages = Some(vec![
        MessageFilter { name: "a".to_string(), rules: vec![], scoping: None, actions: Some(vec![]) },
        MessageFilter { name: "b".to_string(), rules: vec![MessageFilterRule::Zalgo], scoping: None, actions: None },
    ]);
    g.reactions = Some(vec![
        ReactionFilter { name: "r".to_string(), rules: vec![], scoping: None, actions: Some(vec![]) },
        ReactionFilter {
            name: "s".to_string(),
            rules: vec![ReactionFilterRule::CustomId { mode: chrysanthemum::config::FilterMode::DenyList, emoji: vec![1] }],
            scoping: Some(Scoping { exclude_channels: Some(vec![1]), include_channels: Some(vec![2]), exclude_roles: None }),
            actions: None,
        },
    ]);
    let expected = vec![
        ConfigProblem::EmptySlashCommandRoles,
        ConfigProblem::BothChannelLists(ScopeSite::Default),
        ConfigProblem::EmptyExcludeChannels(ScopeSite::Default),
        ConfigProblem::EmptyIncludeChannels(ScopeSite::Default),
        ConfigProblem::EmptyExcludeRoles(ScopeSite::Default),
        ConfigProblem::EmptyDefaultActions,
        ConfigProblem::EmptyPingRoles,
        ConfigProblem::SpamWithoutActions,
        ConfigProblem::NoSpamThresholds,
        ConfigProblem::EmptyUsernameActions,
        ConfigProblem::EmptyUsernameRules,
        ConfigProblem::MessageFilterEmptyActions(0),
        ConfigProblem::MessageFilterWithoutRules(0),
        ConfigProblem::MessageFilterWithoutActions(1),
        ConfigProblem::ReactionFilterEmptyActions(0),
        ConfigProblem::ReactionFilterWithoutRules(0),
        ConfigProblem::ReactionFilterWithoutActions(1),
        ConfigProblem::BothChannelLists(ScopeSite::ReactionFilter(1)),
    ];
    assert_eq!(validate_guild_config(&g), Err(expected));
}

#[test]
fn validation_reports_empty_lists_and_spam_actions() {
    let mut g = empty_guild();
    g.messages = Some(vec![]);
    g.reactions = Some(vec![]);
    let mut spam = spam_filter(10);
    spam.actions = Some(vec![]);
    spam.mentions = Some(2);
    g.spam = Some(spam);
    assert_eq!(
        validate_guild_config(&g),
        Err(vec![
            ConfigProblem::EmptySpamActions,
            ConfigProblem::EmptyMessageFilters,
            ConfigProblem::EmptyReactionFilters,
        ])
    );
}

#[test]
fn spam_window_evicts_old_links() {
    let mut filter = spam_filter(60);
    filter.links = Some(3);
    let mut d = SpamDetector::new();
    assert_eq!(d.record_and_check(1, 9, SpamSignal::Link, 0, &filter), None);
    assert_eq!(d.record_and_check(1, 9, SpamSignal::Link, 10, &filter), None);
    assert_eq!(
        d.record_and_check(1, 9, SpamSignal::Link, 20, &filter),
        Some(SpamViolation { signal: SpamSignal::Link, count: 3 })
    );
    // sixty seconds on, the first entry still counts
    assert_eq!(d.count(1, 9, SpamSignal::Link), 3);
    // at 61 seconds the first entry goes before the fourth is counted
    assert_eq!(
        d.record_and_check(1, 9, SpamSignal::Link, 61, &filter),
        Some(SpamViolation { signal: SpamSignal::Link, count: 3 })
    );
    assert_eq!(d.count(1, 9, SpamSignal::Link), 3);
    // other authors have windows of their own
    assert_eq!(d.record_and_check(1, 10, SpamSignal::Link, 61, &filter), None);
}

#[test]
fn spam_window_keeps_entries_within_interval() {
    let mut filter = spam_filter(60);
    filter.links = Some(3);
    let mut d = SpamDetector::new();
    d.record_and_check(1, 9, SpamSignal::Link, 0, &filter);
    d.record_and_check(1, 9, SpamSignal::Link, 30, &filter);
    assert_eq!(
        d.record_and_check(1, 9, SpamSignal::Link, 60, &filter),
        Some(SpamViolation { signal: SpamSignal::Link, count: 3 })
    );
}

#[test]
fn spam_duplicates_and_message_signals() {
    let mut filter = spam_filter(30);
    filter.duplicates = Some(2);
    filter.emoji = Some(5);
    let mut d = SpamDetector::new();
    let counts = SignalCounts { emoji: 2, links: 0, attachments: 0, spoilers: 0, mentions: 0 };
    assert_eq!(d.record_message(1, 9, &"hi".to_string(), &counts, 0, &filter), None);
    assert_eq!(d.record_message(1, 9, &"hi".to_string(), &counts, 1, &filter), None);
    assert_eq!(d.count(1, 9, SpamSignal::Duplicate), 1);
    assert_eq!(
        d.record_message(1, 9, &"hi".to_string(), &counts, 2, &filter),
        Some(SpamViolation { signal: SpamSignal::Emoji, count: 6 })
    );
    assert_eq!(d.count(1, 9, SpamSignal::Duplicate), 2);
    assert!(!d.note_message(1, 9, &"other".to_string(), 3, 30));
    assert!(d.note_message(1, 9, &"other".to_string(), 4, 30));
    assert!(!d.note_message(1, 9, &"other".to_string(), 40, 30));
}

#[test]
fn resolver_own_actions_replace_defaults() {
    let own = vec![MessageFilterAction::SendLog { channel_id: 8 }];
    let defaults = vec![MessageFilterAction::Delete];
    let r = resolve(Some(&own), Some(&defaults), true);
    assert_eq!(r.len(), 1);
    assert!(matches!(r[0], MessageFilterAction::SendLog { channel_id: 8 }));
    let r = resolve(None, Some(&defaults), true);
    assert_eq!(r.len(), 1);
    assert!(is_delete(&r[0]));
    assert!(resolve(None, None, true).is_empty());
}

#[test]
fn resolver_gates_messages_on_arming() {
    let own = vec![MessageFilterAction::Delete, armed_message(), MessageFilterAction::SendMessage {
        channel_id: 4,
        content: "always".to_string(),
        requires_armed: false,
    }];
    let armed = resolve(Some(&own), None, true);
    assert_eq!(armed.len(), 3);
    assert!(is_delete(&armed[0]));
    assert!(matches!(&armed[1], MessageFilterAction::SendMessage { channel_id: 3, requires_armed: true, .. }));
    let disarmed = resolve(Some(&own), None, false);
    assert_eq!(disarmed.len(), 2);
    assert!(is_delete(&disarmed[0]));
    assert!(matches!(&disarmed[1], MessageFilterAction::SendMessage { channel_id: 4, .. }));
}

#[test]
fn end_to_end_spam_word_deletes() {
    let mut engine = Engine::new(true).unwrap();
    let mut g = empty_guild();
    g.default_actions = Some(vec![MessageFilterAction::Delete]);
    g.messages = Some(vec![words_filter("words", &["spam"], None)]);
    assert_eq!(engine.reload(1, g), Ok(()));
    let r = engine.on_message(&message(1, 5, "this is spam"), 0);
    assert_eq!(r.len(), 1);
    assert!(is_delete(&r[0]));
    assert!(engine.on_message(&message(1, 5, "this is fine"), 1).is_empty());
    assert!(engine.on_message(&message(2, 5, "this is spam"), 2).is_empty());
}

#[test]
fn engine_first_violated_filter_wins_and_bots_are_skipped() {
    let mut engine = Engine::new(false).unwrap();
    let mut g = empty_guild();
    g.default_actions = Some(vec![MessageFilterAction::Delete]);
    let mut scoped = words_filter("scoped", &["bad"], Some(vec![MessageFilterAction::SendLog { channel_id: 1 }]));
    scoped.scoping = Some(Scoping { exclude_channels: Some(vec![5]), include_channels: None, exclude_roles: None });
    g.messages = Some(vec![scoped, words_filter("all", &["bad"], Some(vec![armed_message(), MessageFilterAction::Delete]))]);
    assert_eq!(engine.reload(1, g), Ok(()));
    let r = engine.on_message(&message(1, 6, "bad"), 0);
    assert_eq!(r.len(), 1);
    assert!(matches!(r[0], MessageFilterAction::SendLog { channel_id: 1 }));
    // channel 5 is out of the first filter's scope; the second is disarmed
    let r = engine.on_message(&message(1, 5, "bad"), 0);
    assert_eq!(r.len(), 1);
    assert!(is_delete(&r[0]));
    engine.arm();
    assert_eq!(engine.on_message(&message(1, 5, "bad"), 0).len(), 2);
    engine.disarm();
    let mut bot = message(1, 6, "bad");
    bot.author_is_bot = true;
    assert!(engine.on_message(&bot, 0).is_empty());
}

#[test]
fn engine_reload_keeps_policy_on_error() {
    let mut engine = Engine::new(true).unwrap();
    let mut g = empty_guild();
    g.default_actions = Some(vec![MessageFilterAction::Delete]);
    g.messages = Some(vec![words_filter("words", &["spam"], None)]);
    assert_eq!(engine.reload(1, g), Ok(()));
    let mut bad = empty_guild();
    bad.messages = Some(vec![]);
    assert_eq!(engine.reload(1, bad), Err(vec![ConfigProblem::EmptyMessageFilters]));
    assert_eq!(engine.on_message(&message(1, 5, "spam"), 0).len(), 1);
    assert!(engine.policy(1).is_some());
    assert!(engine.policy(2).is_none());
    assert_eq!(engine.reload(1, empty_guild()), Ok(()));
    assert!(engine.on_message(&message(1, 5, "spam"), 0).is_empty());
}

#[test]
fn engine_spam_filter_reports_links() {
    let mut engine = Engine::new(true).unwrap();
    let mut g = empty_guild();
    let mut spam = spam_filter(60);
    spam.links = Some(2);
    spam.actions = Some(vec![MessageFilterAction::SendLog { channel_id: 2 }]);
    g.spam = Some(spam);
    assert_eq!(engine.reload(1, g), Ok(()));
    assert!(engine.on_message(&message(1, 5, "see https://a.com"), 0).is_empty());
    let r = engine.on_message(&message(1, 5, "and https://b.com"), 1);
    assert_eq!(r.len(), 1);
    assert!(matches!(r[0], MessageFilterAction::SendLog { channel_id: 2 }));
}

#[test]
fn engine_reactions_and_usernames() {
    let mut engine = Engine::new(true).unwrap();
    let mut g = empty_guild();
    g.default_actions = Some(vec![MessageFilterAction::Delete]);
    g.reactions = Some(vec![ReactionFilter {
        name: "r".to_string(),
        rules: vec![ReactionFilterRule::CustomName { names: substring_regex(&words(&["cat"])).unwrap() }],
        scoping: None,
        actions: None,
    }]);
    g.usernames = Some(UsernameFilter {
        rules: vec![UsernameFilterRule::Substring { substrings: substring_regex(&words(&["admin"])).unwrap() }],
        actions: vec![UsernameFilterAction::SendMessage { channel_id: 4, content: "check".to_string() }],
    });
    assert_eq!(engine.reload(1, g), Ok(()));
    let reaction = ReactionEvent {
        guild: 1,
        channel: 2,
        author: 3,
        author_roles: vec![],
        author_is_bot: false,
        emoji: ReactionEmoji::Custom { id: 1, name: Some("blobcat".to_string()) },
    };
    let r = engine.on_reaction(&reaction);
    assert_eq!(r.len(), 1);
    assert!(is_delete(&r[0]));
    let r = engine.on_username_change(&UsernameEvent { guild: 1, user: 3, new_name: "real_admin".to_string() });
    assert_eq!(r.len(), 1);
    assert!(matches!(&r[0], UsernameFilterAction::SendMessage { channel_id: 4, .. }));
    assert!(engine.on_username_change(&UsernameEvent { guild: 1, user: 3, new_name: "alice".to_string() }).is_empty());
}

#[test]
fn engine_test_text_reports_each_filter() {
    let mut engine = Engine::new(true).unwrap();
    let mut g = empty_guild();
    g.default_actions = Some(vec![MessageFilterAction::Delete]);
    g.messages = Some(vec![words_filter("a", &["fine"], None), words_filter("b", &["spam"], None)]);
    assert_eq!(engine.reload(1, g), Ok(()));
    let report = engine.test_text(1, &"this is spam".to_string());
    assert_eq!(report.len(), 2);
    assert!(matches!(report[0], FilterResult::Clean));
    assert!(matches!(&report[1], FilterResult::Violated { rule_index: 0, reason: Reason::Matched(s) } if s == "spam"));
    assert_eq!(first_failed_filter(&report), Some(1));
    assert_eq!(first_failed_filter(&engine.test_text(1, &"ok".to_string())), None);
    assert!(engine.test_text(2, &"spam".to_string()).is_empty());
}

#[test]
fn command_plans_and_kinds() {
    let a = SlashCommands { roles: vec![1] };
    let b = SlashCommands { roles: vec![2] };
    assert_eq!(plan_command_update(Some(&a), Some(&a), true), CommandPlan::Keep);
    assert_eq!(plan_command_update(Some(&a), Some(&b), true), CommandPlan::UpdatePermissions);
    assert_eq!(plan_command_update(Some(&a), Some(&b), false), CommandPlan::Create);
    assert_eq!(plan_command_update(None, Some(&b), true), CommandPlan::Create);
    assert_eq!(plan_command_update(Some(&a), None, true), CommandPlan::Delete);
    assert_eq!(plan_command_update(Some(&a), None, false), CommandPlan::Nothing);
    assert_eq!(plan_command_update(None, None, true), CommandPlan::Nothing);
    let state = CommandState { cmds: vec![(CommandKind::Arm, 10), (CommandKind::Test, 11)] };
    assert_eq!(state.get_command_kind(11), Some(CommandKind::Test));
    assert_eq!(state.get_command_kind(12), None);
}
