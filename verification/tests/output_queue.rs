use orbit_protocol::output_queue::{MAX_OUTPUT_BYTES, MessageClass, OutputQueue};
use orbit_protocol::session::{self, HEADER_BYTES, Metadata, ServerMessage};
use orbit_protocol::MAX_FRAME_BYTES;

fn ends_with(output: &OutputQueue, index: usize, last: u8) -> bool {
    output.message(index).bytes.ends_with(&[last])
}

#[test]
fn pending_presentations_keep_scroll_outcomes_and_latest_replaceable_revision() {
    let mut output = OutputQueue::default();
    assert!(output.can_push_scroll_outcome());
    assert!(output.can_push_selection_result());
    assert!(output.push(vec![0], MessageClass::Ordered));
    assert!(output.push_replaceable(vec![1], MessageClass::Frame));
    assert!(output.push_replaceable(vec![2], MessageClass::Preview));
    assert!(output.push_replaceable(vec![3], MessageClass::Preview));

    assert_eq!(output.len(), 3);
    assert!(ends_with(&output, 0, 0));
    assert!(ends_with(&output, output.len() - 1, 3));

    assert!(output.push_replaceable(vec![4], MessageClass::Frame));
    assert_eq!(output.len(), 2);
    assert!(ends_with(&output, output.len() - 1, 4));

    assert!(output.push_replaceable(vec![5], MessageClass::Preview));
    assert_eq!(output.len(), 3);
    assert!(ends_with(&output, output.len() - 1, 5));

    assert!(output.push_replaceable(vec![6], MessageClass::ScrollOutcome));
    assert_eq!(output.len(), 2);
    assert!(output.push_replaceable(vec![7], MessageClass::Frame));
    assert!(output.push_replaceable(vec![8], MessageClass::ScrollOutcome));
    assert_eq!(output.len(), 3);
    assert!(ends_with(&output, 1, 6));
    assert!(ends_with(&output, 2, 8));

    let mut full = OutputQueue::default();
    assert!(full.push(vec![0; MAX_FRAME_BYTES + HEADER_BYTES], MessageClass::Ordered));
    assert!(full.push_replaceable(vec![1; MAX_FRAME_BYTES + HEADER_BYTES], MessageClass::Frame));
    assert!(full.can_push_frame_message());
    assert!(!full.can_push_selection_result());
}

#[test]
fn ordered_messages_are_never_replaced() {
    let mut output = OutputQueue::new();
    assert!(output.push_replaceable(vec![1], MessageClass::Ordered));
    assert!(output.push_replaceable(vec![2], MessageClass::Ordered));
    assert_eq!(output.len(), 2);
    assert_eq!(output.replaceable_suffix(MessageClass::Frame), (0, 0));
}

#[test]
fn metadata_replaces_only_metadata() {
    let mut output = OutputQueue::new();
    assert!(output.push_replaceable(vec![1, 1], MessageClass::Frame));
    assert!(output.push_replaceable(vec![2, 2, 2], MessageClass::Metadata));
    assert!(output.push_replaceable(vec![3, 3, 3], MessageClass::Metadata));
    assert_eq!(output.replaceable_suffix(MessageClass::Metadata), (1, 3));
    assert_eq!(output.len(), 2);
    assert_eq!(output.unsent_bytes(), 5);
}

#[test]
fn a_partly_written_front_message_is_kept() {
    let mut output = OutputQueue::new();
    assert!(output.push_replaceable(vec![1, 2, 3, 4], MessageClass::Frame));
    assert_eq!(output.front_unsent(), Some(&[1u8, 2, 3, 4][..]));
    output.advance(1);
    assert_eq!(output.front_unsent(), Some(&[2u8, 3, 4][..]));
    assert_eq!(output.unsent_bytes(), 3);
    assert_eq!(output.replaceable_suffix(MessageClass::Frame), (0, 0));
    assert!(output.push_replaceable(vec![9], MessageClass::Frame));
    assert_eq!(output.len(), 2);
    output.advance(3);
    assert_eq!(output.len(), 1);
    assert_eq!(output.front_unsent(), Some(&[9u8][..]));
    output.advance(1);
    assert!(output.is_empty());
    assert_eq!(output.front_unsent(), None);
    assert_eq!(output.unsent_bytes(), 0);
}

#[test]
fn push_refuses_what_exceeds_the_output_bound() {
    let mut output = OutputQueue::new();
    assert!(output.push(vec![0; MAX_OUTPUT_BYTES], MessageClass::Ordered));
    assert!(!output.push(vec![0], MessageClass::Ordered));
    assert!(!output.can_push_result_frame());
    assert_eq!(output.len(), 1);
    assert_eq!(output.unsent_bytes(), MAX_OUTPUT_BYTES);
}

#[test]
fn server_messages_are_classed_by_kind() {
    let mut output = OutputQueue::new();
    let metadata = Metadata {
        revision: 1,
        title: "a".into(),
        working_directory: "file:///tmp".into(),
    };
    assert_eq!(output.push_initial_metadata(&metadata), Ok(true));
    assert_eq!(output.push_message(&ServerMessage::Metadata(metadata.clone())), Ok(true));
    assert_eq!(output.push_message(&ServerMessage::Metadata(metadata.clone())), Ok(true));
    assert_eq!(output.len(), 2);
    let expected = session::encode_server_message(&ServerMessage::Metadata(metadata)).unwrap();
    assert_eq!(output.message(1).bytes, expected);
    assert_eq!(output.message(1).class, MessageClass::Metadata);
    assert_eq!(output.message(0).class, MessageClass::Ordered);
    assert_eq!(output.push_message(&ServerMessage::Attached), Ok(true));
    assert_eq!(output.message(2).class, MessageClass::Ordered);
}

#[test]
fn pending_frames_keep_the_initial_and_only_the_latest_revision() {
    let mut output = OutputQueue::default();
    assert!(output.push(vec![0], MessageClass::Ordered));
    assert!(output.push_replaceable(vec![1], MessageClass::Frame));
    assert!(output.push_replaceable(vec![2], MessageClass::Preview));
    assert!(output.push_replaceable(vec![3], MessageClass::Preview));

    assert_eq!(output.len(), 3);
    assert!(ends_with(&output, 0, 0));
    assert!(ends_with(&output, output.len() - 1, 3));

    assert!(output.push_replaceable(vec![4], MessageClass::Frame));
    assert_eq!(output.len(), 2);
    assert!(ends_with(&output, output.len() - 1, 4));

    assert!(output.push_replaceable(vec![5], MessageClass::Preview));
    assert_eq!(output.len(), 3);
    assert!(ends_with(&output, output.len() - 1, 5));

    let mut full = OutputQueue::default();
    assert!(full.push(vec![0; MAX_FRAME_BYTES + HEADER_BYTES], MessageClass::Ordered));
    assert!(full.push_replaceable(vec![1; MAX_FRAME_BYTES + HEADER_BYTES], MessageClass::Frame));
    assert!(full.can_push_frame_message());
}

#[test]
fn can_push_message_measures_the_encoding() {
    let mut output = OutputQueue::new();
    assert_eq!(output.can_push_message(&ServerMessage::Attached), Ok(true));
    assert!(output.push(vec![0; MAX_OUTPUT_BYTES - HEADER_BYTES], MessageClass::Ordered));
    assert_eq!(output.can_push_message(&ServerMessage::Attached), Ok(true));
    assert_eq!(output.can_push_message(&ServerMessage::Exited { code: 1 }), Ok(false));
}
