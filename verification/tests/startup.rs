use deos_mcpd::startup::{
    control_enabled, remote_sink, session_id, session_id_from, split_upstream, upstream_label,
    StartupError,
};
use deos_mcpd::text::same_text;

fn words(list: &[&str]) -> Vec<String> {
    list.iter().map(|w| w.to_string()).collect()
}

#[test]
fn a_given_session_id_is_kept() {
    assert_eq!(session_id(Some("mine".to_string())), "mine");
    assert_eq!(session_id(Some(String::new())), "");
}

#[test]
fn a_drawn_session_id_stands_in() {
    assert_eq!(session_id_from(Some("mine".to_string()), "drawn".to_string()), "mine");
    assert_eq!(session_id_from(None, "drawn".to_string()), "drawn");
}

#[test]
fn a_fresh_session_id_is_a_random_uuid() {
    let a = session_id(None);
    let b = session_id(None);
    assert_eq!(a.len(), 36);
    assert_eq!(uuid::Uuid::parse_str(&a).unwrap().get_version_num(), 4);
    assert_eq!(a, a.to_lowercase());
    assert_ne!(a, b);
}

#[test]
fn off_switches_the_control_api_off() {
    assert!(!control_enabled("off"));
    assert!(!control_enabled("OFF"));
    assert!(!control_enabled("Off"));
    assert!(control_enabled("127.0.0.1:4005"));
    assert!(control_enabled("offf"));
    assert!(control_enabled(""));
}

#[test]
fn a_receiver_needs_its_key() {
    let sink = remote_sink(Some("https://x".to_string()), Some("k".to_string()));
    let sink = sink.unwrap().unwrap();
    assert_eq!((sink.endpoint.as_str(), sink.api_key.as_str()), ("https://x", "k"));
    let e = remote_sink(Some("https://x".to_string()), None).unwrap_err();
    assert_eq!(e, StartupError::MissingApiKey);
    assert_eq!(e.message(), "--endpoint requires --api-key (or DEOS_MCPD_API_KEY env)");
    assert!(remote_sink(None, Some("k".to_string())).unwrap().is_none());
    assert!(remote_sink(None, None).unwrap().is_none());
}

#[test]
fn the_command_comes_first() {
    let (command, args) = split_upstream(&words(&["npx", "-y", "server"])).unwrap();
    assert_eq!(command, "npx");
    assert_eq!(args, ["-y", "server"]);
    let (command, args) = split_upstream(&words(&["npx"])).unwrap();
    assert_eq!(command, "npx");
    assert!(args.is_empty());
    let e = split_upstream(&words(&[])).unwrap_err();
    assert_eq!(e, StartupError::NoUpstream);
    assert_eq!(e.message(), "--upstream requires at least one argument");
}

#[test]
fn the_label_joins_the_words() {
    assert_eq!(upstream_label(&words(&["npx", "-y", "a b"])), "npx -y a b");
    assert_eq!(upstream_label(&words(&["npx"])), "npx");
    assert_eq!(upstream_label(&words(&["", ""])), " ");
    assert_eq!(upstream_label(&words(&[])), "");
}

#[test]
fn texts_are_compared() {
    assert!(same_text("", ""));
    assert!(same_text("a\u{e9}", "a\u{e9}"));
    assert!(!same_text("a", "b"));
    assert!(!same_text("a", "ab"));
}
