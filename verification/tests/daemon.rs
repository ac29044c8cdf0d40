use defguard_client::daemon::{
    begin, create_reply, remove_reply, resume, CreateInterfaceRequest, CreateOutcome, DaemonReply,
    DaemonRequest, DaemonStep, Handling, OsAnswer, OsCall, RemoveInterfaceRequest, RemoveOutcome,
    Reply,
};

fn config() -> CreateInterfaceRequest {
    CreateInterfaceRequest {
        name: "wg0".to_string(),
        local_address: "10.6.0.2".to_string(),
        own_private_key: "private".to_string(),
        peer_pubkey: "public".to_string(),
        peer_endpoint: "vpn.example.com:51820".to_string(),
        allowed_ips: "10.6.0.0/24".to_string(),
        dns: None,
        keepalive: Some(25),
    }
}

fn expect_call(step: DaemonStep) -> (OsCall, Handling) {
    match step {
        DaemonStep::Call { call, then } => (call, then),
        DaemonStep::Reply(reply) => panic!("answered early with {reply:?}"),
    }
}

fn expect_reply(step: DaemonStep) -> DaemonReply {
    match step {
        DaemonStep::Reply(reply) => reply,
        DaemonStep::Call { call, .. } => panic!("asked for {call:?}"),
    }
}

fn remove(answer: OsAnswer) -> DaemonReply {
    let request = RemoveInterfaceRequest { interface_name: "wg0".to_string() };
    let (call, then) = expect_call(begin(DaemonRequest::Remove(request)));
    assert!(matches!(call, OsCall::DeleteDevice(name) if name == "wg0"));
    expect_reply(resume(then, answer))
}

#[test]
fn removing_a_missing_interface_is_not_found() {
    assert_eq!(remove(OsAnswer::NoSuchDevice), DaemonReply::Remove(RemoveOutcome::NotFound));
    assert_ne!(remove(OsAnswer::NoSuchDevice), DaemonReply::Remove(RemoveOutcome::Removed));
}

#[test]
fn removing_an_interface_follows_the_system() {
    assert_eq!(remove(OsAnswer::Done), DaemonReply::Remove(RemoveOutcome::Removed));
    assert_eq!(remove(OsAnswer::Failed), DaemonReply::Remove(RemoveOutcome::OsFailure));
    assert_eq!(remove(OsAnswer::InvalidArgument), DaemonReply::Remove(RemoveOutcome::OsFailure));
    assert_eq!(remove(OsAnswer::AlreadyExists), DaemonReply::Remove(RemoveOutcome::OsFailure));
}

#[test]
fn create_makes_then_configures() {
    let (call, then) = expect_call(begin(DaemonRequest::Create(config())));
    assert!(matches!(call, OsCall::CreateDevice(name) if name == "wg0"));
    let (call, then) = expect_call(resume(then, OsAnswer::Done));
    match call {
        OsCall::Configure(asked) => {
            assert_eq!(asked.name, "wg0");
            assert_eq!(asked.local_address, "10.6.0.2");
            assert_eq!(asked.own_private_key, "private");
            assert_eq!(asked.peer_pubkey, "public");
            assert_eq!(asked.peer_endpoint, "vpn.example.com:51820");
            assert_eq!(asked.allowed_ips, "10.6.0.0/24");
            assert_eq!(asked.dns, None);
            assert_eq!(asked.keepalive, Some(25));
        }
        other => panic!("asked for {other:?}"),
    }
    let reply = expect_reply(resume(then, OsAnswer::Done));
    assert_eq!(reply, DaemonReply::Create(CreateOutcome::Created));
}

#[test]
fn create_tells_failures_apart() {
    let cases = [
        (OsAnswer::AlreadyExists, CreateOutcome::AlreadyExists),
        (OsAnswer::InvalidArgument, CreateOutcome::InvalidConfiguration),
        (OsAnswer::Failed, CreateOutcome::OsFailure),
        (OsAnswer::NoSuchDevice, CreateOutcome::OsFailure),
    ];
    for (answer, outcome) in cases {
        let (_, then) = expect_call(begin(DaemonRequest::Create(config())));
        let reply = expect_reply(resume(then, answer));
        assert_eq!(reply, DaemonReply::Create(outcome));
    }
}

#[test]
fn a_device_that_cannot_be_configured_is_deleted() {
    let cases = [
        (OsAnswer::InvalidArgument, CreateOutcome::InvalidConfiguration),
        (OsAnswer::Failed, CreateOutcome::OsFailure),
    ];
    for (answer, outcome) in cases {
        let (_, then) = expect_call(begin(DaemonRequest::Create(config())));
        let (_, then) = expect_call(resume(then, OsAnswer::Done));
        let (call, then) = expect_call(resume(then, answer));
        assert!(matches!(call, OsCall::DeleteDevice(name) if name == "wg0"));
        for undone in [OsAnswer::Done, OsAnswer::Failed] {
            let again = match &then {
                Handling::Undoing(kept) => Handling::Undoing(*kept),
                other => panic!("in state {other:?}"),
            };
            let reply = expect_reply(resume(again, undone));
            assert_eq!(reply, DaemonReply::Create(outcome));
        }
    }
}

#[test]
fn client_reads_the_answer_or_none() {
    let reply = create_reply(Some(DaemonReply::Create(CreateOutcome::AlreadyExists)));
    assert!(matches!(reply, Reply::Answered(CreateOutcome::AlreadyExists)));
    assert!(matches!(create_reply(None), Reply::Unreachable));
    let reply = create_reply(Some(DaemonReply::Remove(RemoveOutcome::Removed)));
    assert!(matches!(reply, Reply::Unreachable));
    let reply = remove_reply(Some(DaemonReply::Remove(RemoveOutcome::NotFound)));
    assert!(matches!(reply, Reply::Answered(RemoveOutcome::NotFound)));
    assert!(matches!(remove_reply(None), Reply::Unreachable));
    let reply = remove_reply(Some(DaemonReply::Create(CreateOutcome::Created)));
    assert!(matches!(reply, Reply::Unreachable));
}
