use lumalla::comms::{on_lost_peer, LostPeerAction, Peer};
use lumalla::lifecycle::{LoopAction, LoopEvent, MessageLoop, ShutdownAction, ShutdownState};

#[test]
fn run_message_loop_forwards_messages_to_runner() {
    let mut l = MessageLoop::new();
    assert_eq!(l.on_event(LoopEvent::Message), LoopAction::Forward);
    assert_eq!(l.on_event(LoopEvent::Message), LoopAction::Forward);
    assert!(l.running);
}

#[test]
fn run_message_loop_calls_on_dispatch_wait() {
    let mut l = MessageLoop::new();
    assert!(l.on_dispatch_wait(false));
    assert!(!l.on_dispatch_wait(true));
    assert!(!l.running);
}

#[test]
fn run_message_loop_stops_on_channel_close() {
    let mut l = MessageLoop::new();
    assert_eq!(l.on_event(LoopEvent::Closed), LoopAction::Stop);
    assert!(!l.running);
    assert!(!l.on_dispatch_wait(false));
}

#[test]
fn to_display_sends_shutdown_to_main_on_lost_connection_to_display() {
    assert_eq!(on_lost_peer(Peer::Display), LostPeerAction::RequestShutdown);
}

#[test]
fn to_renderer_sends_shutdown_to_main_on_lost_connection_to_renderer() {
    assert_eq!(on_lost_peer(Peer::Renderer), LostPeerAction::RequestShutdown);
}

#[test]
fn to_input_sends_shutdown_to_main_on_lost_connection_to_input() {
    assert_eq!(on_lost_peer(Peer::Input), LostPeerAction::RequestShutdown);
}

#[test]
fn to_config_sends_shutdown_to_main_on_lost_connection_to_config() {
    assert_eq!(on_lost_peer(Peer::Config), LostPeerAction::RequestShutdown);
}

#[test]
fn lost_main_thread_aborts() {
    assert_eq!(on_lost_peer(Peer::Main), LostPeerAction::Abort);
    assert_eq!(on_lost_peer(Peer::Seat), LostPeerAction::RequestShutdown);
}

#[test]
fn shutdown_grace_broadcasts_once_and_waits_for_threads() {
    let mut s = ShutdownState::new();
    assert!(!s.should_stop(true));
    match s.on_shutdown() {
        ShutdownAction::Broadcast(peers) => {
            assert_eq!(peers, vec![Peer::Input, Peer::Display, Peer::Renderer, Peer::Config]);
        }
        ShutdownAction::Nothing => panic!("first shutdown must broadcast"),
    }
    assert_eq!(s.on_shutdown(), ShutdownAction::Nothing);
    // Threads still running, grace period not over.
    assert!(!s.should_stop(false));
    // Every thread joined.
    assert!(s.should_stop(true));
}

#[test]
fn shutdown_grace_deadline_forces_exit() {
    let mut s = ShutdownState::new();
    let _ = s.on_shutdown();
    assert!(!s.should_stop(false));
    s.on_grace_expired();
    assert!(s.should_stop(false));
}
