use subnet_vox::message::Message;
use subnet_vox::networking::Receiver;
use subnet_vox::wire::{encode_chat, encode_discovery, join_from, split_on_separator};

fn parsed(data: &str) -> (String, String, String, String) {
    Receiver::parse_message(data)
}

fn four(a: &str, b: &str, c: &str, d: &str) -> (String, String, String, String) {
    (a.to_string(), b.to_string(), c.to_string(), d.to_string())
}

#[test]
fn empty_datagram_decodes_to_defaults() {
    assert_eq!(parsed(""), four("", "Unknown", "", "Unknown"));
}

#[test]
fn text_without_separator_is_content() {
    assert_eq!(parsed("hello"), four("", "Unknown", "hello", "Unknown"));
}

#[test]
fn two_fields_keep_type_and_rest() {
    assert_eq!(parsed("PING~bob"), four("PING", "Unknown", "bob", "Unknown"));
    assert_eq!(parsed("~"), four("", "Unknown", "", "Unknown"));
}

#[test]
fn three_fields_rejoin_the_rest() {
    assert_eq!(
        parsed("DISCOVER~alice~None"),
        four("DISCOVER", "Unknown", "alice~None", "Unknown")
    );
}

#[test]
fn four_fields_map_name_content_and_ip() {
    assert_eq!(
        parsed("CHAT~alice~000.000.000.000~hello"),
        four("CHAT", "alice", "hello", "000.000.000.000")
    );
}

#[test]
fn content_with_separators_is_rejoined() {
    assert_eq!(parsed("CHAT~a~ip~x~y~"), four("CHAT", "a", "x~y~", "ip"));
}

#[test]
fn split_and_join() {
    let parts = split_on_separator("a~~b~");
    assert_eq!(parts, vec!["a".to_string(), String::new(), "b".to_string(), String::new()]);
    assert_eq!(join_from(&parts, 0), "a~~b~");
    assert_eq!(join_from(&parts, 2), "b~");
    assert_eq!(join_from(&parts, 4), "");
    assert_eq!(split_on_separator(""), vec![String::new()]);
}

#[test]
fn message_encodes_name_ip_content() {
    let m = Message::new("hello".to_string(), "alice".to_string(), "1.2.3.4".to_string());
    assert_eq!(m.encode_for_broadcast(), "alice~1.2.3.4~hello");
    assert_eq!(m.content(), "hello");
    assert_eq!(m.sender_name(), "alice");
    assert_eq!(m.sender_ip(), "1.2.3.4");
}

#[test]
fn chat_and_discovery_datagrams() {
    let m = Message::new("hi".to_string(), "bob".to_string(), "000.000.000.000".to_string());
    assert_eq!(encode_chat(&m), "CHAT~bob~000.000.000.000~hi");
    assert_eq!(encode_discovery("DISCOVER", "alice"), "DISCOVER~alice~None");
    assert_eq!(encode_discovery("DISCOVER_RESPONSE", "bob"), "DISCOVER_RESPONSE~bob~None");
}

#[test]
fn chat_datagram_round_trips() {
    let m = Message::new("a~b".to_string(), "carol".to_string(), "000.000.000.000".to_string());
    let (kind, name, content, ip) = parsed(&encode_chat(&m));
    assert_eq!(kind, "CHAT");
    assert_eq!(name, "carol");
    assert_eq!(content, "a~b");
    assert_eq!(ip, "000.000.000.000");
}

#[test]
fn separator_in_name_shifts_fields() {
    let m = Message::new("x".to_string(), "a~b".to_string(), "ip".to_string());
    let (_, name, content, ip) = parsed(&encode_chat(&m));
    assert_eq!(name, "a");
    assert_eq!(ip, "b");
    assert_eq!(content, "ip~x");
}

#[test]
fn discovery_probe_decodes_to_its_type() {
    let (kind, _, _, _) = parsed(&encode_discovery("DISCOVER", "we~ird"));
    assert_eq!(kind, "DISCOVER");
}
