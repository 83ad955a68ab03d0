use messenger_bridge::config::{default_messenger_host, Config};
use messenger_bridge::mention::{replace_mentions, User};
use messenger_bridge::relay::{is_relayed, relay_message, relay_text, MessageEvent};

fn config() -> Config {
    Config {
        discord_server: "home".to_string(),
        discord_channel: "general".to_string(),
        discord_webhook_id: 7,
        discord_token: "SECRET-REDACTED".to_string(),
        messenger_host: default_messenger_host(),
        messenger_port: 8080,
    }
}

fn user(id: u64, name: &str, nick: Option<&str>) -> User {
    User { id, name: name.to_string(), nick: nick.map(|n| n.to_string()) }
}

fn event(channel: &str, content: &str, mentions: Vec<User>, attachments: Vec<&str>) -> MessageEvent {
    MessageEvent {
        channel_name: channel.to_string(),
        from_webhook: false,
        author: user(1, "alice_account", Some("Alice")),
        content: content.to_string(),
        mentions,
        attachments: attachments.into_iter().map(|a| a.to_string()).collect(),
    }
}

#[test]
fn basic_relay() {
    let e = event("general", "hello", vec![], vec![]);
    assert_eq!(relay_message(&config(), &e), Some("*Alice*: hello ".to_string()));
}

#[test]
fn mention_substitution() {
    let e = event("general", "hi <@!42>", vec![user(42, "bob_account", Some("Bob"))], vec![]);
    assert_eq!(replace_mentions("hi <@!42>", &e.mentions), "hi Bob");
    assert_eq!(relay_message(&config(), &e), Some("*Alice*: hi Bob ".to_string()));
}

#[test]
fn attachment_append() {
    let e = event("general", "look", vec![], vec!["http://x/img.png"]);
    assert_eq!(
        relay_message(&config(), &e),
        Some("*Alice*: look \nhttp://x/img.png".to_string())
    );
}

#[test]
fn attachments_keep_their_order() {
    let e = event("general", "two", vec![], vec!["http://a", "http://b"]);
    assert_eq!(relay_text(&e), "two \nhttp://a\nhttp://b");
}

#[test]
fn channel_mismatch_is_not_relayed() {
    let e = event("random", "hello", vec![], vec![]);
    assert!(!is_relayed(&config(), &e.channel_name, e.from_webhook));
    assert!(is_relayed(&config(), &"general".to_string(), false));
    assert_eq!(relay_message(&config(), &e), None);
}

#[test]
fn webhook_message_is_not_relayed() {
    let mut e = event("general", "hello", vec![], vec![]);
    e.from_webhook = true;
    assert_eq!(relay_message(&config(), &e), None);
    e.channel_name = "random".to_string();
    assert_eq!(relay_message(&config(), &e), None);
}

#[test]
fn author_without_nickname_uses_account_name() {
    let mut e = event("general", "yo", vec![], vec![]);
    e.author = user(3, "carol", None);
    assert_eq!(relay_message(&config(), &e), Some("*carol*: yo ".to_string()));
}

#[test]
fn payload_ends_with_body_and_space_before_attachments() {
    let e = event("general", "a <@!5> b", vec![user(5, "eve", None)], vec!["u1", "u2"]);
    let p = relay_message(&config(), &e).unwrap();
    assert!(p.ends_with("a eve b \nu1\nu2"));
}

#[test]
fn no_mentions_no_attachments_keeps_body() {
    let e = event("general", "plain <@!9> text", vec![], vec![]);
    assert_eq!(relay_text(&e), "plain <@!9> text ");
    assert!(!relay_text(&e).contains('\n'));
}

#[test]
fn every_mention_occurrence_is_replaced() {
    let users = vec![user(42, "bob", Some("Bob")), user(7, "dan", None)];
    assert_eq!(replace_mentions("<@!42> and <@!7> and <@!42>!", &users), "Bob and dan and Bob!");
}

#[test]
fn unknown_and_malformed_tokens_are_kept() {
    let users = vec![user(42, "bob", Some("Bob"))];
    assert_eq!(replace_mentions("<@!43> <@42> <@!> <@!4x2> <@!42", &users), "<@!43> <@42> <@!> <@!4x2> <@!42");
    assert_eq!(replace_mentions("<<@!42>>", &users), "<Bob>");
}

#[test]
fn oversized_id_is_kept() {
    let users = vec![user(u64::MAX, "max", None)];
    assert_eq!(replace_mentions("<@!18446744073709551615>", &users), "max");
    assert_eq!(replace_mentions("<@!18446744073709551616>", &users), "<@!18446744073709551616>");
}

#[test]
fn empty_body() {
    let e = event("general", "", vec![], vec![]);
    assert_eq!(relay_message(&config(), &e), Some("*Alice*:  ".to_string()));
}

#[test]
fn non_ascii_text_is_kept() {
    let users = vec![user(1, "ü", Some("Zoë"))];
    assert_eq!(replace_mentions("héllo <@!1> ✓", &users), "héllo Zoë ✓");
}

#[test]
fn agrees_with_regex_on_mention_positions() {
    let re = regex::Regex::new(r"<@!\d+>").unwrap();
    let users = vec![user(42, "bob", Some("Bob")), user(8, "x", None)];
    for body in ["hi <@!42>", "<@!8><@!42>", "a<@!42>b<@!8>c", "x <@!42 y", "<@!42>"] {
        let by_regex = re.replace_all(body, |c: &regex::Captures| {
            let digits = &c[0][3..c[0].len() - 1];
            if digits == "42" { "Bob".to_string() } else { "x".to_string() }
        });
        assert_eq!(replace_mentions(body, &users), by_regex);
    }
}

#[test]
fn default_host_is_loopback() {
    assert_eq!(default_messenger_host(), "127.0.0.1");
}
