use orbit_protocol::management::owner::{
    RequestStep, acquire_matches, identity_equal, over_budget, read_budget, refuse_step,
    request_step, respond,
};
use orbit_protocol::management::{
    self, ClientMessage, EndpointIdentity, Error, Failure, FailureCode, LiveIdentity,
    ObjectIdentity, ServerMessage,
};

fn identity() -> LiveIdentity {
    LiveIdentity {
        session_id: "session-1".into(),
        run_id: "run-1".into(),
        component_generation: "component-1".into(),
        record_generation: management::RECORD_GENERATION,
        management_generation: management::VERSION,
        process_id: 42,
        process_start: 99,
        uid: 1000,
        presentation: EndpointIdentity {
            path: b"/run/user/1000/orbit.sock".to_vec(),
            object: ObjectIdentity { device: 7, inode: 11 },
        },
        management: EndpointIdentity {
            path: b"/run/user/1000/orbit.sock.management".to_vec(),
            object: ObjectIdentity { device: 7, inode: 12 },
        },
    }
}

#[test]
fn owner_reads_at_most_one_bounded_request() {
    assert_eq!(read_budget(0), Some(management::MAX_MESSAGE_BYTES));
    assert_eq!(read_budget(4000), Some(96));
    assert_eq!(read_budget(management::MAX_MESSAGE_BYTES), None);
}

#[test]
fn owner_classifies_request_bytes() {
    let status = management::encode_client_message(&ClientMessage::Status).unwrap();
    assert!(matches!(request_step(&status[..5]), RequestStep::Incomplete));
    assert!(matches!(
        request_step(&status),
        RequestStep::Complete(ClientMessage::Status)
    ));
    let mut pipelined = status.clone();
    pipelined.extend_from_slice(&status);
    assert!(matches!(request_step(&pipelined), RequestStep::Pipelined));
    let mut bad = status.clone();
    bad[0] = b'X';
    assert!(matches!(request_step(&bad), RequestStep::Invalid(Error::InvalidMagic)));

    let acquire = ClientMessage::Acquire {
        expected: identity(),
        record: ObjectIdentity { device: 7, inode: 13 },
    };
    let bytes = management::encode_client_message(&acquire).unwrap();
    match request_step(&bytes) {
        RequestStep::Complete(message) => assert_eq!(message, acquire),
        _ => panic!("acquire was not decoded"),
    }
}

fn refused(detail: &str) -> ServerMessage {
    ServerMessage::Failure(Failure {
        code: FailureCode::InvalidRequest,
        detail: detail.into(),
    })
}

#[test]
fn owner_answers_by_lease() {
    let acquire = ClientMessage::Acquire {
        expected: identity(),
        record: ObjectIdentity { device: 7, inode: 13 },
    };
    let lease = respond(&acquire, false, true, identity()).unwrap();
    assert_eq!(lease.message, ServerMessage::Lease(identity()));
    assert!(lease.lease && !lease.close);

    let mismatch = respond(&acquire, false, false, identity()).unwrap();
    assert_eq!(
        mismatch.message,
        ServerMessage::Failure(Failure {
            code: FailureCode::InvalidIdentity,
            detail: "live Orbit identity did not match".into(),
        })
    );
    assert!(mismatch.close && !mismatch.lease);

    let before_lease = "acquire the management lease before this request";
    for (message, leased) in [
        (acquire.clone(), true),
        (ClientMessage::Status, false),
        (ClientMessage::Stop, false),
    ] {
        let reply = respond(&message, leased, true, identity()).unwrap();
        assert_eq!(reply.message, refused(before_lease));
        assert!(reply.close && !reply.lease);
    }

    let status = respond(&ClientMessage::Status, true, false, identity()).unwrap();
    assert_eq!(status.message, ServerMessage::Status(identity()));
    assert!(!status.close && !status.lease);
    assert!(respond(&ClientMessage::Stop, true, false, identity()).is_none());
}

#[test]
fn malformed_requests_are_refused_and_closed() {
    let reply = over_budget();
    assert_eq!(reply.message, refused("management request exceeded its bound"));
    assert!(reply.close);
    let reply = refuse_step(&RequestStep::Pipelined).unwrap();
    assert_eq!(reply.message, refused("management requests cannot be pipelined"));
    let reply = refuse_step(&RequestStep::Invalid(Error::InvalidMagic)).unwrap();
    assert_eq!(reply.message, refused("invalid management magic"));
    assert!(refuse_step(&RequestStep::Incomplete).is_none());
    assert!(refuse_step(&RequestStep::Complete(ClientMessage::Stop)).is_none());
}

#[test]
fn acquire_needs_the_same_user_and_identity() {
    let owner = identity();
    assert!(identity_equal(&owner, &identity()));
    assert!(acquire_matches(&owner, 1000, &identity()));
    assert!(!acquire_matches(&owner, 1001, &identity()));
    let mut other = identity();
    other.run_id = "wrong-run".into();
    assert!(!identity_equal(&owner, &other));
    assert!(!acquire_matches(&owner, 1000, &other));
    let mut moved = identity();
    moved.management.object.inode = 99;
    assert!(!acquire_matches(&owner, 1000, &moved));
    let mut renamed = identity();
    renamed.presentation.path.push(b'x');
    assert!(!acquire_matches(&owner, 1000, &renamed));
}
