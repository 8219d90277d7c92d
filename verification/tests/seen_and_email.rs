use redclaw::email::{
    compose_email_content, default_idle_timeout, initial_backoff_secs, next_backoff_secs,
    resolve_subject_body, strip_html, EmailChannel, EmailConfig,
};
use redclaw::BoundedSeenSet;

#[test]
fn default_idle_timeout_is_29_minutes() {
    assert_eq!(default_idle_timeout(), 1740);
}

#[test]
fn bounded_seen_set_insert_and_contains() {
    let mut set = BoundedSeenSet::new(10);
    assert!(set.insert("a".into()));
    assert!(set.contains("a"));
    assert!(!set.contains("b"));
}

#[test]
fn bounded_seen_set_rejects_duplicates() {
    let mut set = BoundedSeenSet::new(10);
    assert!(set.insert("a".into()));
    assert!(!set.insert("a".into()));
    assert_eq!(set.len(), 1);
}

#[test]
fn bounded_seen_set_evicts_oldest_at_capacity() {
    let mut set = BoundedSeenSet::new(3);
    set.insert("a".into());
    set.insert("b".into());
    set.insert("c".into());
    assert_eq!(set.len(), 3);

    set.insert("d".into());
    assert_eq!(set.len(), 3);
    assert!(!set.contains("a"), "oldest entry should be evicted");
    assert!(set.contains("b"));
    assert!(set.contains("c"));
    assert!(set.contains("d"));
}

#[test]
fn bounded_seen_set_evicts_in_fifo_order() {
    let mut set = BoundedSeenSet::new(2);
    set.insert("first".into());
    set.insert("second".into());
    set.insert("third".into());
    assert!(!set.contains("first"));
    assert!(set.contains("second"));
    assert!(set.contains("third"));

    set.insert("fourth".into());
    assert!(!set.contains("second"));
    assert!(set.contains("third"));
    assert!(set.contains("fourth"));
}

#[test]
fn bounded_seen_set_capacity_one() {
    let mut set = BoundedSeenSet::new(1);
    set.insert("a".into());
    assert!(set.contains("a"));

    set.insert("b".into());
    assert!(!set.contains("a"));
    assert!(set.contains("b"));
    assert_eq!(set.len(), 1);
}

#[test]
fn idle_timeout_propagates_to_channel() {
    let config = EmailConfig {
        idle_timeout_secs: 600,
        ..EmailConfig::default()
    };
    let channel = EmailChannel::new(config);
    assert_eq!(channel.config.idle_timeout_secs, 600);
}

#[test]
fn email_config_defaults() {
    let c = EmailConfig::default();
    assert_eq!(c.imap_port, 993);
    assert_eq!(c.smtp_port, 587);
    assert_eq!(c.imap_folder, "INBOX");
    assert!(c.smtp_tls);
    assert_eq!(c.idle_timeout_secs, 1740);
    assert!(c.allowed_senders.is_empty());
}

#[test]
fn sender_allowlist_rules() {
    let mut config = EmailConfig::default();
    let channel = EmailChannel::new(config.clone());
    assert!(!channel.is_sender_allowed("alice@example.com"), "empty list denies all");

    config.allowed_senders = vec!["*".to_string()];
    let channel = EmailChannel::new(config.clone());
    assert!(channel.is_sender_allowed("anyone@anywhere.net"));

    config.allowed_senders = vec!["@example.com".to_string()];
    let channel = EmailChannel::new(config.clone());
    assert!(channel.is_sender_allowed("Bob@Example.com"));
    assert!(!channel.is_sender_allowed("bob@other.org"));

    config.allowed_senders = vec!["alice@example.com".to_string()];
    let channel = EmailChannel::new(config.clone());
    assert!(channel.is_sender_allowed("ALICE@EXAMPLE.COM"));
    assert!(!channel.is_sender_allowed("carol@example.com"));

    config.allowed_senders = vec!["example.com".to_string()];
    let channel = EmailChannel::new(config.clone());
    assert!(channel.is_sender_allowed("dave@example.com"));
    assert!(!channel.is_sender_allowed("dave@badexample.com.evil"));
}

#[test]
fn duplicate_message_id_delivered_once() {
    let mut config = EmailConfig::default();
    config.allowed_senders = vec!["alice@example.com".to_string()];
    let mut channel = EmailChannel::new(config);
    assert!(channel.should_deliver("alice@example.com", "msg-1".to_string()));
    assert!(
        !channel.should_deliver("alice@example.com", "msg-1".to_string()),
        "a redelivered message id must be filtered"
    );
    assert!(channel.should_deliver("alice@example.com", "msg-2".to_string()));
}

#[test]
fn blocked_sender_not_remembered() {
    let config = EmailConfig::default();
    let mut channel = EmailChannel::new(config);
    assert!(!channel.should_deliver("mallory@evil.net", "msg-1".to_string()));
}

#[test]
fn strip_html_drops_tags_and_collapses_whitespace() {
    assert_eq!(strip_html("<p>Hello <b>world</b></p>"), "Hello world");
    assert_eq!(strip_html("a\n  b"), "a b");
    assert_eq!(strip_html("<div><span>x</span></div>"), "x");
    assert_eq!(strip_html(""), "");
}

#[test]
fn subject_resolution() {
    let (s, b) = resolve_subject_body(&Some("Hi".to_string()), "body");
    assert_eq!(s, "Hi");
    assert_eq!(b, "body");

    let (s, b) = resolve_subject_body(&None, "Subject: Greetings\nhello there");
    assert_eq!(s, "Greetings");
    assert_eq!(b, "hello there");

    let (s, b) = resolve_subject_body(&None, "plain content");
    assert_eq!(s, "RedClaw Message");
    assert_eq!(b, "plain content");
}

#[test]
fn compose_content_format() {
    assert_eq!(compose_email_content("Re: hi", "body"), "Subject: Re: hi\n\nbody");
}

#[test]
fn reconnect_backoff_doubles_and_caps() {
    assert_eq!(initial_backoff_secs(), 1);
    assert_eq!(next_backoff_secs(1), 2);
    assert_eq!(next_backoff_secs(2), 4);
    assert_eq!(next_backoff_secs(32), 60);
    assert_eq!(next_backoff_secs(60), 60);
}
