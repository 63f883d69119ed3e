use chrysanthemum::compile::{compile_regex, regex_pattern, substring_regex, word_regex};
use chrysanthemum::config::{FilterMode, MessageFilterRule, ReactionFilterRule, UsernameFilterRule};
use chrysanthemum::rules::{first_invite_offence, first_link_offence, MessageSample, ReactionEmoji, Reason, Recognizers};
use chrysanthemum::text::zalgo;

fn words(list: &[&str]) -> Vec<String> {
    list.iter().map(|w| w.to_string()).collect()
}

fn text_sample(text: &str) -> MessageSample {
    MessageSample {
        text: text.to_string(),
        mime_types: vec![],
        sticker_ids: vec![],
        sticker_names: vec![],
        emoji_names: vec![],
    }
}

fn reason_text(r: Option<Reason>) -> Option<String> {
    match r {
        Some(Reason::Matched(s)) => Some(s),
        Some(Reason::Invite(s)) => Some(s),
        Some(Reason::Domain(s)) => Some(s),
        Some(Reason::MimeType(s)) => Some(s),
        Some(Reason::Emoji(s)) => Some(s),
        Some(_) => Some(String::new()),
        None => None,
    }
}

#[test]
fn deserialize_word_regex() {
    let regex = word_regex(&words(&["a", "b", "a(b)"])).expect("couldn't compile the word list");
    assert_eq!(regex.as_str(), "\\b(a|b|a\\(b\\))\\b");
}

#[test]
fn escaping_makes_meta_characters_literal() {
    assert_eq!(regex_pattern(&words(&["a.b", "c|d"])), "a\\.b|c\\|d");
    assert_eq!(regex_pattern(&words(&[])), "");
    let p = substring_regex(&words(&["a.b"])).unwrap();
    assert!(p.find("axb").is_none());
    assert_eq!(p.find("xa.by"), Some("a.b".to_string()));
}

#[test]
fn words_rule_needs_word_boundaries() {
    let rec = Recognizers::new().unwrap();
    let rule = MessageFilterRule::Words { words: word_regex(&words(&["a", "b"])).unwrap() };
    assert_eq!(reason_text(rule.matches(&text_sample("a"), &rec)), Some("a".to_string()));
    assert!(rule.matches(&text_sample("cab"), &rec).is_none());
    assert!(rule.matches(&text_sample("abc"), &rec).is_none());
    assert_eq!(reason_text(rule.matches(&text_sample("x b y"), &rec)), Some("b".to_string()));
}

#[test]
fn substring_rule_matches_anywhere() {
    let rec = Recognizers::new().unwrap();
    let rule = MessageFilterRule::Substring { substrings: substring_regex(&words(&["a", "b"])).unwrap() };
    assert_eq!(reason_text(rule.matches(&text_sample("abc"), &rec)), Some("a".to_string()));
    assert_eq!(reason_text(rule.matches(&text_sample("cab"), &rec)), Some("a".to_string()));
    assert!(rule.matches(&text_sample("xyz"), &rec).is_none());
}

#[test]
fn compiled_word_list_matches_each_word() {
    let list = words(&["spam", "eggs", "ham", "a(b)c"]);
    let w = word_regex(&list).unwrap();
    let s = substring_regex(&list).unwrap();
    for word in &list {
        assert_eq!(s.find(word), Some(word.clone()));
    }
    for word in &list[..3] {
        assert_eq!(w.find(word), Some(word.clone()));
    }
}

#[test]
fn regex_rule_uses_first_matching_expression() {
    let rec = Recognizers::new().unwrap();
    let rule = MessageFilterRule::Regex {
        regexes: vec![
            compile_regex("x+y".to_string()).unwrap(),
            compile_regex("[0-9]{3}".to_string()).unwrap(),
        ],
    };
    assert_eq!(reason_text(rule.matches(&text_sample("call 5551234"), &rec)), Some("555".to_string()));
    assert!(rule.matches(&text_sample("nothing"), &rec).is_none());
    assert!(compile_regex("(".to_string()).is_err());
}

#[test]
fn zalgo_flags_stacked_marks() {
    assert!(zalgo("h\u{0301}\u{0302}\u{0303}\u{0304}\u{0305}e"));
    assert!(!zalgo("h\u{0301}\u{0302}\u{0303}\u{0304}e"));
    assert!(!zalgo("plain ascii text of some length, never flagged at all"));
    assert!(!zalgo(""));
    let rec = Recognizers::new().unwrap();
    let rule = MessageFilterRule::Zalgo;
    assert!(matches!(rule.matches(&text_sample("h\u{0301}\u{0302}\u{0303}\u{0304}\u{0305}e"), &rec), Some(Reason::Zalgo)));
}

#[test]
fn zalgo_flags_dense_marks() {
    // eight code points, three of them marks: 12 > 8
    assert!(zalgo("a\u{0301}b\u{0301}c\u{0301}de"));
    // eight code points, two of them marks: 8 is not over 8
    assert!(!zalgo("a\u{0301}b\u{0301}cdef"));
    // seven code points are too few for the density check
    assert!(!zalgo("a\u{0301}b\u{0301}c\u{0301}d"));
}

#[test]
fn mime_rule_modes() {
    let rec = Recognizers::new().unwrap();
    let mut sample = text_sample("");
    sample.mime_types = vec![Some("image/png".to_string()), None];
    let deny = MessageFilterRule::MimeType { mode: FilterMode::DenyList, types: words(&["image/png"]), allow_unknown: true };
    assert_eq!(reason_text(deny.matches(&sample, &rec)), Some("image/png".to_string()));
    let allow = MessageFilterRule::MimeType { mode: FilterMode::AllowList, types: words(&["image/png"]), allow_unknown: false };
    assert!(matches!(allow.matches(&sample, &rec), Some(Reason::UnknownMimeType)));
    let allow_unknown = MessageFilterRule::MimeType { mode: FilterMode::AllowList, types: words(&["image/png"]), allow_unknown: true };
    assert!(allow_unknown.matches(&sample, &rec).is_none());
}

#[test]
fn invite_rule_modes() {
    let rec = Recognizers::new().unwrap();
    let sample = text_sample("join discord.gg/abc123 now");
    let deny = MessageFilterRule::Invite { mode: FilterMode::DenyList, invites: words(&["abc123"]) };
    assert_eq!(reason_text(deny.matches(&sample, &rec)), Some("abc123".to_string()));
    let allow = MessageFilterRule::Invite { mode: FilterMode::AllowList, invites: words(&["abc123"]) };
    assert!(allow.matches(&sample, &rec).is_none());
    let other = text_sample("see https://discord.com/invite/zzz");
    assert_eq!(reason_text(allow.matches(&other, &rec)), Some("zzz".to_string()));
}

#[test]
fn link_rule_counts_subdomains() {
    let rec = Recognizers::new().unwrap();
    let allow = MessageFilterRule::Link { mode: FilterMode::AllowList, domains: words(&["example.com"]) };
    assert!(allow.matches(&text_sample("https://sub.example.com/page"), &rec).is_none());
    assert!(allow.matches(&text_sample("http://example.com"), &rec).is_none());
    assert_eq!(reason_text(allow.matches(&text_sample("https://badexample.com/x"), &rec)), Some("badexample.com".to_string()));
    let deny = MessageFilterRule::Link { mode: FilterMode::DenyList, domains: words(&["evil.org"]) };
    assert_eq!(reason_text(deny.matches(&text_sample("a https://www.evil.org b"), &rec)), Some("www.evil.org".to_string()));
    assert!(deny.matches(&text_sample("no links here"), &rec).is_none());
}

#[test]
fn sticker_and_emoji_rules() {
    let rec = Recognizers::new().unwrap();
    let mut sample = text_sample("");
    sample.sticker_ids = vec![5, 7];
    sample.sticker_names = vec!["cute cat".to_string()];
    sample.emoji_names = vec!["blobdance".to_string()];
    let ids = MessageFilterRule::StickerId { mode: FilterMode::DenyList, stickers: vec![7] };
    assert!(matches!(ids.matches(&sample, &rec), Some(Reason::StickerId(7))));
    let allow_ids = MessageFilterRule::StickerId { mode: FilterMode::AllowList, stickers: vec![7] };
    assert!(matches!(allow_ids.matches(&sample, &rec), Some(Reason::StickerId(5))));
    let names = MessageFilterRule::StickerName { stickers: substring_regex(&words(&["cat"])).unwrap() };
    assert_eq!(reason_text(names.matches(&sample, &rec)), Some("cat".to_string()));
    let emoji = MessageFilterRule::EmojiName { names: substring_regex(&words(&["dance"])).unwrap() };
    assert_eq!(reason_text(emoji.matches(&sample, &rec)), Some("dance".to_string()));
}

#[test]
fn reaction_rules() {
    let unicode = ReactionEmoji::Unicode { name: "\u{1F346}".to_string() };
    let custom = ReactionEmoji::Custom { id: 42, name: Some("blobcat".to_string()) };
    let deny = ReactionFilterRule::Default { mode: FilterMode::DenyList, emoji: words(&["\u{1F346}"]) };
    assert_eq!(reason_text(deny.matches(&unicode)), Some("\u{1F346}".to_string()));
    assert!(deny.matches(&custom).is_none());
    let ids = ReactionFilterRule::CustomId { mode: FilterMode::AllowList, emoji: vec![1] };
    assert!(matches!(ids.matches(&custom), Some(Reason::EmojiId(42))));
    let names = ReactionFilterRule::CustomName { names: substring_regex(&words(&["cat"])).unwrap() };
    assert_eq!(reason_text(names.matches(&custom)), Some("cat".to_string()));
    assert!(names.matches(&unicode).is_none());
}

#[test]
fn username_rules() {
    let sub = UsernameFilterRule::Substring { substrings: substring_regex(&words(&["admin"])).unwrap() };
    assert_eq!(reason_text(sub.matches("the_admin_team")), Some("admin".to_string()));
    assert!(sub.matches("alice").is_none());
    let re = UsernameFilterRule::Regex { regexes: vec![compile_regex("^[0-9]+$".to_string()).unwrap()] };
    assert_eq!(reason_text(re.matches("12345")), Some("12345".to_string()));
    assert!(re.matches("bob1").is_none());
}

#[test]
fn captured_invites_and_hosts_are_judged() {
    let groups = vec![None, Some("ok".to_string()), Some("bad".to_string())];
    let r = first_invite_offence(&groups, FilterMode::DenyList, &words(&["bad"]));
    assert!(matches!(r, Some(Reason::Invite(s)) if s == "bad"));
    let r = first_invite_offence(&groups, FilterMode::AllowList, &words(&["ok", "bad"]));
    assert!(r.is_none());
    let hosts = vec![Some("a.example.com".to_string()), Some("example.com.evil".to_string())];
    let r = first_link_offence(&hosts, FilterMode::AllowList, &words(&["example.com"]));
    assert!(matches!(r, Some(Reason::Domain(s)) if s == "example.com.evil"));
    let r = first_link_offence(&hosts, FilterMode::DenyList, &words(&["example.com"]));
    assert!(matches!(r, Some(Reason::Domain(s)) if s == "a.example.com"));
}
