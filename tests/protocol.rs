use cloud_p2p::protocol::{
    BasicLibraryCreationArgs, JoinSyncGroupError, JoinSyncGroupResponse, JoinedLibraryCreateArgs,
    NotifyUser, PeerAnswer, ResponseAction, Runner, RunnerError, Ticket, UserResponse,
};
use cloud_p2p::supervisor::{after_generation, GenerationEnd, SupervisorAction, MAILBOX_CAPACITY};

const A: u128 = 0xA;
const B: u128 = 0xB;
const C: u128 = 0xC;
const D: u128 = 0xD;
const GROUP: u128 = 77;

fn library() -> JoinedLibraryCreateArgs {
    JoinedLibraryCreateArgs {
        pub_id: 5,
        name: "photos".to_string(),
        description: None,
    }
}

#[test]
fn three_members_one_accepts_one_fails_one_times_out() {
    let mut runner = Runner::new();
    let d = runner.request_join_sync_group(GROUP, &vec![A, B, C]).unwrap();
    assert_eq!(d.dispatches.len(), 3);
    let (ta, tb, tc) = (d.dispatches[0].0, d.dispatches[1].0, d.dispatches[2].0);
    assert_eq!(d.dispatches[0].1, A);
    assert_eq!(d.dispatches[1].1, B);
    assert_eq!(d.dispatches[2].1, C);
    assert!(ta != tb && tb != tc && ta != tc);

    let accepted = runner.on_peer_response(
        tb,
        PeerAnswer::Accepted { authorizor_device: B, library: library() },
    );
    match accepted {
        ResponseAction::Fulfil { request, args, notify } => {
            assert_eq!(request, d.request);
            assert_eq!(args.pub_id, 5);
            assert_eq!(args.name, "photos");
            assert_eq!(
                notify,
                NotifyUser::ReceivedJoinSyncGroupResponse {
                    response: JoinSyncGroupResponse::Accepted { authorizor_device: B },
                    sync_group: GROUP,
                }
            );
        }
        other => panic!("expected fulfilment, got {:?}", other),
    }

    let late = runner.on_peer_response(tc, PeerAnswer::Failed(JoinSyncGroupError::Auth));
    assert!(matches!(late, ResponseAction::Discard));

    assert_eq!(
        runner.on_deadline(ta),
        Some(NotifyUser::TimedOutJoinRequest { device: A, succeeded: true })
    );
    assert!(!runner.is_open(d.request));
    assert_eq!(runner.on_deadline(ta), None);
    assert_eq!(runner.on_deadline(tc), None);
}

#[test]
fn acceptance_fulfils_only_once() {
    let mut runner = Runner::new();
    let d = runner.request_join_sync_group(GROUP, &vec![A, B]).unwrap();
    let first = runner.on_peer_response(
        d.dispatches[0].0,
        PeerAnswer::Accepted { authorizor_device: A, library: library() },
    );
    assert!(matches!(first, ResponseAction::Fulfil { .. }));
    let second = runner.on_peer_response(
        d.dispatches[1].0,
        PeerAnswer::Accepted { authorizor_device: B, library: library() },
    );
    assert!(matches!(second, ResponseAction::Discard));
    let again = runner.on_peer_response(
        d.dispatches[0].0,
        PeerAnswer::Accepted { authorizor_device: A, library: library() },
    );
    assert!(matches!(again, ResponseAction::Discard));
}

#[test]
fn all_failures_are_reported_and_nothing_is_fulfilled() {
    let mut runner = Runner::new();
    let d = runner.request_join_sync_group(GROUP, &vec![A, B, C]).unwrap();
    let a = runner.on_peer_response(
        d.dispatches[0].0,
        PeerAnswer::Failed(JoinSyncGroupError::Communication),
    );
    match a {
        ResponseAction::Notify(n) => assert_eq!(
            n,
            NotifyUser::ReceivedJoinSyncGroupResponse {
                response: JoinSyncGroupResponse::Failed(JoinSyncGroupError::Communication),
                sync_group: GROUP,
            }
        ),
        other => panic!("expected a notification, got {:?}", other),
    }
    let b = runner.on_peer_response(d.dispatches[1].0, PeerAnswer::CriticalError);
    match b {
        ResponseAction::Notify(n) => assert_eq!(
            n,
            NotifyUser::ReceivedJoinSyncGroupResponse {
                response: JoinSyncGroupResponse::CriticalError,
                sync_group: GROUP,
            }
        ),
        other => panic!("expected a notification, got {:?}", other),
    }
    assert!(runner.is_open(d.request));
    assert_eq!(
        runner.on_deadline(d.dispatches[2].0),
        Some(NotifyUser::TimedOutJoinRequest { device: C, succeeded: false })
    );
    assert!(!runner.is_open(d.request));
}

#[test]
fn unknown_ticket_is_discarded() {
    let mut runner = Runner::new();
    let r = runner.on_peer_response(Ticket(42), PeerAnswer::CriticalError);
    assert!(matches!(r, ResponseAction::Discard));
    assert_eq!(runner.on_deadline(Ticket(42)), None);
}

#[test]
fn empty_group_dispatches_nothing() {
    let mut runner = Runner::new();
    let d = runner.request_join_sync_group(GROUP, &vec![]).unwrap();
    assert_eq!(d.request, 0);
    assert!(d.dispatches.is_empty());
    let e = runner.request_join_sync_group(GROUP, &vec![A]).unwrap();
    assert_eq!(e.request, 1);
    assert_eq!(e.dispatches, vec![(Ticket(0), A)]);
}

#[test]
fn user_decision_applies_once() {
    let mut runner = Runner::new();
    let prompt = runner.on_join_request(D, GROUP).unwrap();
    let ticket = match prompt {
        NotifyUser::ReceivedJoinSyncGroupRequest { ticket, asking_device, sync_group } => {
            assert_eq!(asking_device, D);
            assert_eq!(sync_group, GROUP);
            ticket
        }
        other => panic!("expected a prompt, got {:?}", other),
    };
    let args = BasicLibraryCreationArgs { id: 9, name: "docs".to_string(), description: None };
    let reply = runner
        .on_user_response(UserResponse::AcceptDeviceInSyncGroup {
            ticket,
            accepted: Some(args.clone()),
        })
        .unwrap();
    assert_eq!(reply.ticket, ticket);
    assert_eq!(reply.asking_device, D);
    assert_eq!(reply.sync_group, GROUP);
    assert_eq!(reply.accepted.unwrap().id, 9);
    let twice = runner.on_user_response(UserResponse::AcceptDeviceInSyncGroup {
        ticket,
        accepted: Some(args),
    });
    assert!(twice.is_none());
    assert_eq!(runner.on_deadline(ticket), None);
}

#[test]
fn pending_decision_times_out() {
    let mut runner = Runner::new();
    let prompt = runner.on_join_request(D, GROUP).unwrap();
    let ticket = match prompt {
        NotifyUser::ReceivedJoinSyncGroupRequest { ticket, .. } => ticket,
        other => panic!("expected a prompt, got {:?}", other),
    };
    assert_eq!(
        runner.on_deadline(ticket),
        Some(NotifyUser::TimedOutJoinRequest { device: D, succeeded: false })
    );
    let late = runner.on_user_response(UserResponse::AcceptDeviceInSyncGroup {
        ticket,
        accepted: None,
    });
    assert!(late.is_none());
}

#[test]
fn tickets_are_never_reused() {
    let mut runner = Runner::new();
    let d = runner.request_join_sync_group(GROUP, &vec![A, B]).unwrap();
    let prompt = runner.on_join_request(D, GROUP).unwrap();
    let e = runner.request_join_sync_group(GROUP, &vec![C]).unwrap();
    assert_eq!(d.dispatches[0].0, Ticket(0));
    assert_eq!(d.dispatches[1].0, Ticket(1));
    assert_eq!(
        prompt,
        NotifyUser::ReceivedJoinSyncGroupRequest { ticket: Ticket(2), asking_device: D, sync_group: GROUP }
    );
    assert_eq!(e.dispatches[0].0, Ticket(3));
}

#[test]
fn crashed_generation_is_respawned_and_serves() {
    assert_eq!(after_generation(GenerationEnd::Panicked), SupervisorAction::Respawn);
    assert_eq!(after_generation(GenerationEnd::Stopped), SupervisorAction::Exit);
    // The state outlives the crashed generation and takes a fresh request.
    let mut runner = Runner::new();
    let _ = runner.request_join_sync_group(GROUP, &vec![A]).unwrap();
    let d = runner.request_join_sync_group(GROUP, &vec![B]).unwrap();
    let r = runner.on_peer_response(
        d.dispatches[0].0,
        PeerAnswer::Accepted { authorizor_device: B, library: library() },
    );
    assert!(matches!(r, ResponseAction::Fulfil { request: 1, .. }));
}

#[test]
fn mailbox_holds_sixteen_requests() {
    assert_eq!(MAILBOX_CAPACITY, 16);
}

#[test]
fn decisions_become_answers() {
    let accepted = cloud_p2p::protocol::PeerReply {
        ticket: Ticket(3),
        asking_device: D,
        sync_group: GROUP,
        accepted: Some(BasicLibraryCreationArgs {
            id: 11,
            name: "music".to_string(),
            description: Some("tunes".to_string()),
        }),
    };
    match accepted.into_answer(A) {
        PeerAnswer::Accepted { authorizor_device, library } => {
            assert_eq!(authorizor_device, A);
            assert_eq!(library.pub_id, 11);
            assert_eq!(library.name, "music");
            assert_eq!(library.description.as_deref(), Some("tunes"));
        }
        other => panic!("expected an acceptance, got {:?}", other),
    }
    let refused = cloud_p2p::protocol::PeerReply {
        ticket: Ticket(4),
        asking_device: D,
        sync_group: GROUP,
        accepted: None,
    };
    assert!(matches!(refused.into_answer(A), PeerAnswer::Failed(JoinSyncGroupError::Auth)));
}
