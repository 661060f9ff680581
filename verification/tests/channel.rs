use crossbeam::channel::RecvError;
use tezedge_node::channel::{
    context_receive, context_send, enable_context_channel, new_context_channel, receive_outcome,
    send_outcome, send_plan, ContextAction, ContextReceiveError,
};

fn checkout(hash: u8) -> ContextAction {
    ContextAction::Checkout { context_hash: vec![hash], start_time: 0, end_time: 0 }
}

#[test]
fn disabled_channel_drops_actions() {
    let (sender, receiver) = new_context_channel();
    assert!(context_send(&sender, checkout(1)).0.is_ok());
    drop(sender);
    assert!(matches!(context_receive(&receiver), Err(ContextReceiveError::Disconnected)));
}

#[test]
fn enabled_channel_delivers_actions_in_order() {
    let (mut sender, receiver) = new_context_channel();
    enable_context_channel(&mut sender);
    assert!(context_send(&sender, checkout(1)).0.is_ok());
    assert!(context_send(&sender, ContextAction::Shutdown).0.is_ok());
    assert!(matches!(
        context_receive(&receiver),
        Ok(ContextAction::Checkout { ref context_hash, .. }) if *context_hash == vec![1u8]
    ));
    assert!(matches!(context_receive(&receiver), Ok(ContextAction::Shutdown)));
}

#[test]
fn send_without_receiver_returns_action() {
    let (mut sender, receiver) = new_context_channel();
    drop(receiver);
    enable_context_channel(&mut sender);
    match context_send(&sender, checkout(9)).0 {
        Err(e) => assert!(matches!(e.action, ContextAction::Checkout { ref context_hash, .. } if *context_hash == vec![9u8])),
        Ok(()) => panic!("no receiver is left"),
    }
}

#[test]
fn disabled_channel_without_receiver_still_accepts() {
    let (sender, receiver) = new_context_channel();
    drop(receiver);
    assert!(context_send(&sender, checkout(2)).0.is_ok());
}

#[test]
fn send_outcome_maps_each_result() {
    assert!(send_outcome(Ok(())).is_ok());
    match send_outcome(Err(checkout(4))) {
        Err(e) => assert!(matches!(e.action, ContextAction::Checkout { ref context_hash, .. } if *context_hash == vec![4u8])),
        Ok(()) => panic!("a refused action is an error"),
    }
}

#[test]
fn receive_outcome_maps_each_result() {
    assert!(matches!(receive_outcome(Ok(ContextAction::Shutdown)), Ok(ContextAction::Shutdown)));
    assert!(matches!(receive_outcome(Err(RecvError)), Err(ContextReceiveError::Disconnected)));
}

#[test]
fn send_plan_hands_action_only_when_enabled() {
    let (mut sender, _receiver) = new_context_channel();
    assert!(send_plan(&sender, checkout(5)).is_none());
    enable_context_channel(&mut sender);
    assert!(matches!(send_plan(&sender, checkout(5)), Some(ContextAction::Checkout { ref context_hash, .. }) if *context_hash == vec![5u8]));
}

#[test]
fn enabling_twice_keeps_channel() {
    let (mut sender, receiver) = new_context_channel();
    enable_context_channel(&mut sender);
    enable_context_channel(&mut sender);
    assert!(context_send(&sender, checkout(6)).0.is_ok());
    assert!(matches!(context_receive(&receiver), Ok(ContextAction::Checkout { ref context_hash, .. }) if *context_hash == vec![6u8]));
}

#[test]
fn send_into_enabled_channel_delivers_that_action() {
    let (mut sender, receiver) = new_context_channel();
    enable_context_channel(&mut sender);
    let (res, _handed) = context_send(&sender, checkout(8));
    assert!(res.is_ok());
    assert!(matches!(context_receive(&receiver), Ok(ContextAction::Checkout { ref context_hash, .. }) if *context_hash == vec![8u8]));
}
