use ic_kit::replica::{CanisterMessage, FatalError, Replica, RouteEffect};
use ic_kit::types::{CallReply, CanisterCall, Env, EntryMode, Message, RejectionCode};

fn request_env(caller: u64, attached: u64) -> Env {
    Env {
        caller,
        entry_mode: EntryMode::Update,
        method_name: "ping".to_string(),
        args: vec![1, 2, 3],
        cycles_available: attached,
        cycles_refunded: 0,
    }
}

fn ok_reply(data: Vec<u8>, cycles_refunded: u64) -> CallReply {
    CallReply::Reply { data, cycles_refunded }
}

#[test]
fn register_twice_is_fatal() {
    let mut replica = Replica::default();
    assert!(replica.add_canister(1).is_ok());
    let second = replica.add_canister(1);
    assert_eq!(second, Err(FatalError::DuplicateCanister { canister_id: 1 }));
    // A third attempt fares no better, and other identities still register.
    assert_eq!(
        replica.add_canister(1),
        Err(FatalError::DuplicateCanister { canister_id: 1 })
    );
    assert!(replica.add_canister(2).is_ok());
}

#[test]
fn new_with_duplicate_ids_is_fatal() {
    assert!(Replica::new(vec![1, 2, 3]).is_ok());
    let dup = Replica::new(vec![1, 2, 1]);
    assert_eq!(dup.err(), Some(FatalError::DuplicateCanister { canister_id: 1 }));
}

#[test]
fn unknown_destination_request_refunds_attached_cycles() {
    let mut replica = Replica::default();
    let handle = replica.get_canister(7);
    let (channel, effect) = handle.run_env(&mut replica, request_env(0, 250));
    match effect {
        RouteEffect::Rejected { channel: ch, reply } => {
            assert_eq!(ch, channel);
            match reply {
                CallReply::Reject { rejection_code, rejection_message, cycles_refunded } => {
                    assert_eq!(rejection_code, RejectionCode::DestinationInvalid);
                    assert_eq!(cycles_refunded, 250);
                    assert!(!rejection_message.is_empty());
                }
                other => panic!("expected a rejection, got {:?}", other),
            }
        }
        other => panic!("expected a rejected routing, got {:?}", other),
    }
}

#[test]
fn unknown_destination_refund_ignores_the_returned_cycles_field() {
    // The refund is the attached amount, whatever an envelope happens to
    // carry in its returned-cycles field.
    let mut replica = Replica::default();
    let handle = replica.get_canister(8);
    let env = Env {
        caller: 0,
        entry_mode: EntryMode::Update,
        method_name: "m".to_string(),
        args: Vec::new(),
        cycles_available: 100,
        cycles_refunded: 55,
    };
    let (_, effect) = handle.run_env(&mut replica, env);
    match effect {
        RouteEffect::Rejected { reply, .. } => assert_eq!(reply.cycles_refunded(), 100),
        other => panic!("expected a rejected routing, got {:?}", other),
    }
}

#[test]
fn unknown_destination_task_refunds_available_cycles() {
    let mut replica = Replica::default();
    let handle = replica.get_canister(3);
    let env = Env {
        caller: 0,
        entry_mode: EntryMode::Update,
        method_name: String::new(),
        args: Vec::new(),
        cycles_available: 99,
        cycles_refunded: 0,
    };
    let (channel, effect) = handle.custom(&mut replica, 11, env);
    match effect {
        RouteEffect::Rejected { channel: ch, reply } => {
            assert_eq!(ch, channel);
            assert_eq!(reply.cycles_refunded(), 99);
        }
        other => panic!("expected a rejected routing, got {:?}", other),
    }
}

#[test]
fn unknown_destination_call_refunds_attached_cycles() {
    let mut replica = Replica::new(vec![1]).unwrap();
    let call = CanisterCall {
        callee: 42,
        method_name: "transfer".to_string(),
        args: vec![9],
        cycles: 1234,
    };
    let (watcher, effect) = replica.submit_call(1, call);
    match effect {
        RouteEffect::Rejected { channel, reply } => {
            assert_eq!(channel, watcher.channel);
            assert_eq!(reply.cycles_refunded(), 1234);
            assert!(matches!(
                reply,
                CallReply::Reject { rejection_code: RejectionCode::DestinationInvalid, .. }
            ));
        }
        other => panic!("expected a rejected routing, got {:?}", other),
    }
    // The watcher still exists until its outcome is delivered back.
    assert_eq!(replica.pending_count(), 1);
}

#[test]
fn refunds_for_unreachable_destinations_conserve_resources() {
    let mut replica = Replica::new(vec![1]).unwrap();
    let attached = [5u64, 10, 0, 7];
    let mut refunded: u64 = 0;
    for (i, cycles) in attached.iter().enumerate() {
        let call = CanisterCall {
            callee: 100 + i as u64,
            method_name: "m".to_string(),
            args: Vec::new(),
            cycles: *cycles,
        };
        let (_, effect) = replica.submit_call(1, call);
        match effect {
            RouteEffect::Rejected { reply, .. } => refunded += reply.cycles_refunded(),
            other => panic!("expected a rejected routing, got {:?}", other),
        }
    }
    assert_eq!(refunded, attached.iter().sum::<u64>());
}

#[test]
fn mailbox_is_fifo() {
    let mut replica = Replica::new(vec![1]).unwrap();
    for tag in [10u8, 20, 30] {
        let env = Env {
            caller: 0,
            entry_mode: EntryMode::Update,
            method_name: "m".to_string(),
            args: vec![tag],
            cycles_available: 0,
            cycles_refunded: 0,
        };
        let effect = replica.enqueue_request(
            1,
            Message::Request { request_id: tag as u64, env },
            None,
        );
        assert_eq!(effect, RouteEffect::Enqueued { canister_id: 1 });
    }
    assert_eq!(replica.mailbox_len(1), Some(3));
    for tag in [10u8, 20, 30] {
        let cm = replica.take_next_message(1).expect("a queued message");
        match cm.message {
            Message::Request { request_id, env } => {
                assert_eq!(request_id, tag as u64);
                assert_eq!(env.args, vec![tag]);
            }
            other => panic!("expected a request, got {:?}", other),
        }
    }
    assert!(replica.take_next_message(1).is_none());
}

#[test]
fn concurrent_calls_get_distinct_correlation_ids_and_matching_replies() {
    let mut replica = Replica::new(vec![1, 2]).unwrap();
    let payloads: Vec<Vec<u8>> = vec![vec![1], vec![2], vec![3]];
    let mut watchers = Vec::new();
    for p in &payloads {
        let call = CanisterCall {
            callee: 2,
            method_name: "work".to_string(),
            args: p.clone(),
            cycles: 0,
        };
        let (w, effect) = replica.submit_call(1, call);
        assert_eq!(effect, RouteEffect::Enqueued { canister_id: 2 });
        watchers.push(w);
    }
    // Freshly generated correlation ids are pairwise distinct.
    for i in 0..watchers.len() {
        for j in i + 1..watchers.len() {
            assert_ne!(watchers[i].request_id, watchers[j].request_id);
            assert_ne!(watchers[i].channel, watchers[j].channel);
        }
    }
    assert_eq!(replica.pending_count(), 3);

    // The callee sees the three requests in submission order, each tagged
    // with its own call's correlation id.
    for (i, p) in payloads.iter().enumerate() {
        let cm = replica.take_next_message(2).expect("a queued request");
        match cm.message {
            Message::Request { request_id, env } => {
                assert_eq!(request_id, watchers[i].request_id);
                assert_eq!(env.args, *p);
                assert_eq!(env.caller, 1);
            }
            other => panic!("expected a request, got {:?}", other),
        }
    }

    // The callee answers out of order; each outcome still reaches the
    // caller tagged with the correlation id of its own call.
    for &i in &[2usize, 0, 1] {
        let effect = replica.deliver_outcome(watchers[i], ok_reply(payloads[i].clone(), 0));
        assert_eq!(effect, RouteEffect::Enqueued { canister_id: 1 });
    }
    assert_eq!(replica.pending_count(), 0);
    for &i in &[2usize, 0, 1] {
        let cm = replica.take_next_message(1).expect("a queued reply");
        assert_eq!(cm.reply_channel, None);
        match cm.message {
            Message::Reply { reply, request_id } => {
                assert_eq!(request_id, watchers[i].request_id);
                assert_eq!(reply, ok_reply(payloads[i].clone(), 0));
            }
            other => panic!("expected a reply, got {:?}", other),
        }
    }
}

#[test]
fn reentrant_callback_is_processed_in_arrival_order() {
    let mut replica = Replica::new(vec![1, 2]).unwrap();

    // A calls B.
    let call_to_b = CanisterCall {
        callee: 2,
        method_name: "outer".to_string(),
        args: vec![1],
        cycles: 0,
    };
    let (watcher_a, effect) = replica.submit_call(1, call_to_b);
    assert_eq!(effect, RouteEffect::Enqueued { canister_id: 2 });

    // B processes A's call, and while doing so calls back into A before
    // answering.
    let _b_inbox = replica.take_next_message(2).expect("B's inbound request");
    let nested = CanisterCall {
        callee: 1,
        method_name: "nested".to_string(),
        args: vec![2],
        cycles: 0,
    };
    let (watcher_b, effect) = replica.submit_call(2, nested);
    assert_eq!(effect, RouteEffect::Enqueued { canister_id: 1 });

    // Only then does B's answer to the original call arrive at A.
    let effect = replica.deliver_outcome(watcher_a, ok_reply(vec![7], 0));
    assert_eq!(effect, RouteEffect::Enqueued { canister_id: 1 });

    // A's mailbox holds B's nested call first, the reply second: strict
    // arrival order, the nested call an ordinary request.
    let first = replica.take_next_message(1).expect("the nested request");
    match first.message {
        Message::Request { env, .. } => {
            assert_eq!(env.caller, 2);
            assert_eq!(env.method_name, "nested");
        }
        other => panic!("expected the nested request first, got {:?}", other),
    }
    let second = replica.take_next_message(1).expect("the reply");
    match second.message {
        Message::Reply { request_id, .. } => assert_eq!(request_id, watcher_a.request_id),
        other => panic!("expected the reply second, got {:?}", other),
    }
    assert_eq!(replica.pending_count(), 1);
    let effect = replica.deliver_outcome(watcher_b, ok_reply(vec![], 0));
    assert_eq!(effect, RouteEffect::Enqueued { canister_id: 2 });
    assert_eq!(replica.pending_count(), 0);
}

#[test]
fn initialize_lifecycle_request_to_self_succeeds_with_no_residue() {
    let mut replica = Replica::new(vec![1, 2]).unwrap();
    let handle = replica.get_canister(1);
    let (channel, effect) = handle.init(&mut replica);
    assert_eq!(effect, RouteEffect::Enqueued { canister_id: 1 });
    assert_eq!(replica.mailbox_len(1), Some(1));

    // The canister's actor loop dequeues the canned request.
    let cm: CanisterMessage = replica.take_next_message(1).expect("the init request");
    assert_eq!(cm.reply_channel, Some(channel));
    match cm.message {
        Message::Request { env, .. } => {
            assert_eq!(env.entry_mode, EntryMode::Init);
            assert_eq!(env.cycles_available, 0);
            assert_eq!(env.cycles_refunded, 0);
            assert!(env.method_name.is_empty());
            assert!(env.args.is_empty());
        }
        other => panic!("expected the init request, got {:?}", other),
    }

    // Processing produces no outgoing calls; the successful outcome goes
    // straight out on the submitter's channel. Nothing is left pending
    // and both mailboxes are empty.
    let outcome = ok_reply(Vec::new(), 0);
    assert_eq!(outcome.cycles_refunded(), 0);
    assert_eq!(replica.pending_count(), 0);
    assert_eq!(replica.mailbox_len(1), Some(0));
    assert_eq!(replica.mailbox_len(2), Some(0));
}

#[test]
fn lifecycle_envelopes_address_their_entry_points() {
    assert_eq!(Env::init().entry_mode, EntryMode::Init);
    assert_eq!(Env::pre_upgrade().entry_mode, EntryMode::PreUpgrade);
    assert_eq!(Env::post_upgrade().entry_mode, EntryMode::PostUpgrade);
    assert_eq!(Env::heartbeat().entry_mode, EntryMode::Heartbeat);
    let hb = Env::heartbeat();
    assert_eq!(hb.cycles_available, 0);
    assert_eq!(hb.cycles_refunded, 0);
    assert!(hb.method_name.is_empty());
    assert!(hb.args.is_empty());
}

#[test]
fn lifecycle_hooks_enqueue_their_requests() {
    let mut replica = Replica::new(vec![4]).unwrap();
    let handle = replica.get_canister(4);
    handle.pre_upgrade(&mut replica);
    handle.post_upgrade(&mut replica);
    handle.heartbeat(&mut replica);
    let modes = [EntryMode::PreUpgrade, EntryMode::PostUpgrade, EntryMode::Heartbeat];
    for mode in modes {
        let cm = replica.take_next_message(4).expect("a lifecycle request");
        match cm.message {
            Message::Request { env, .. } => assert_eq!(env.entry_mode, mode),
            other => panic!("expected a lifecycle request, got {:?}", other),
        }
    }
}

#[test]
fn reply_routed_to_unknown_origin_is_fatal() {
    let mut replica = Replica::new(vec![1]).unwrap();
    let call = CanisterCall {
        callee: 1,
        method_name: "m".to_string(),
        args: Vec::new(),
        cycles: 0,
    };
    let (mut watcher, _) = replica.submit_call(1, call);
    watcher.origin = 9;  // the originating canister is gone
    let effect = replica.deliver_outcome(watcher, ok_reply(Vec::new(), 0));
    assert_eq!(
        effect,
        RouteEffect::Fatal { error: FatalError::UnknownReplyOrigin { canister_id: 9 } }
    );
}

#[test]
fn unroutable_reply_message_refunds_nothing() {
    let mut replica = Replica::default();
    let message = Message::Reply { reply: ok_reply(vec![1], 55), request_id: 0 };
    let effect = replica.enqueue_request(9, message, Some(77));
    match effect {
        RouteEffect::Rejected { channel, reply } => {
            assert_eq!(channel, 77);
            // A reply attaches no cycles of its own: zero is refunded.
            assert_eq!(reply.cycles_refunded(), 0);
        }
        other => panic!("expected a rejected routing, got {:?}", other),
    }
}

#[test]
fn unroutable_request_without_channel_is_fatal() {
    let mut replica = Replica::default();
    let effect = replica.enqueue_request(
        5,
        Message::Request { request_id: 0, env: request_env(0, 10) },
        None,
    );
    assert_eq!(
        effect,
        RouteEffect::Fatal { error: FatalError::MissingReplyChannel { canister_id: 5 } }
    );
}

#[test]
fn reply_to_message_tags_the_correlation_id() {
    let reply = ok_reply(vec![8], 3);
    let message = reply.clone().to_message(41);
    assert_eq!(message, Message::Reply { reply, request_id: 41 });
}

#[test]
fn perform_call_routes_to_a_registered_callee() {
    let mut replica = Replica::new(vec![6]).unwrap();
    let call = CanisterCall {
        callee: 6,
        method_name: "greet".to_string(),
        args: vec![4, 2],
        cycles: 17,
    };
    let (channel, effect) = replica.perform_call(call);
    assert_eq!(effect, RouteEffect::Enqueued { canister_id: 6 });
    // Nothing is outstanding: the external submitter awaits the channel
    // directly, with no watcher in between.
    assert_eq!(replica.pending_count(), 0);
    let cm = replica.take_next_message(6).expect("the routed request");
    assert_eq!(cm.reply_channel, Some(channel));
    match cm.message {
        Message::Request { env, .. } => {
            assert_eq!(env.method_name, "greet");
            assert_eq!(env.args, vec![4, 2]);
            assert_eq!(env.cycles_available, 17);
            // Nothing has been returned yet on a fresh request.
            assert_eq!(env.cycles_refunded, 0);
        }
        other => panic!("expected the routed request, got {:?}", other),
    }
}
