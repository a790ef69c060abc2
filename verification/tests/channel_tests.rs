use clipz_core::channel::CommandChannel;
use clipz_core::model::BackendError;

#[test]
fn commands_reach_the_wire_in_submission_order() {
    let mut ch = CommandChannel::new();
    assert!(ch.send("remove-entry:2".to_string()).is_ok());
    assert!(ch.send("get-entries".to_string()).is_ok());
    assert_eq!(ch.write_next(), Some("remove-entry:2".to_string()));
    assert_eq!(ch.write_next(), Some("get-entries".to_string()));
    assert_eq!(ch.write_next(), None);
    assert_eq!(
        ch.written,
        vec!["remove-entry:2".to_string(), "get-entries".to_string()]
    );
}

#[test]
fn interleaved_sends_and_writes_keep_order() {
    let mut ch = CommandChannel::new();
    ch.send("c1".to_string()).unwrap();
    assert_eq!(ch.write_next(), Some("c1".to_string()));
    ch.send("c2".to_string()).unwrap();
    ch.send("c3".to_string()).unwrap();
    assert_eq!(ch.write_next(), Some("c2".to_string()));
    assert_eq!(ch.write_next(), Some("c3".to_string()));
    assert_eq!(ch.written, vec!["c1".to_string(), "c2".to_string(), "c3".to_string()]);
}

#[test]
fn send_on_a_closed_channel_fails_and_drops() {
    let mut ch = CommandChannel::new();
    ch.send("kept".to_string()).unwrap();
    ch.close();
    let r = ch.send("dropped".to_string());
    assert_eq!(r, Err(BackendError::SendFailed));
    assert_eq!(ch.pending, vec!["kept".to_string()]);
}

#[test]
fn write_next_on_empty_queue_is_none() {
    let mut ch = CommandChannel::new();
    assert_eq!(ch.write_next(), None);
    assert!(ch.written.is_empty());
}
