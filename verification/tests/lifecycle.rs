use bot_core::lifecycle::{LifecycleManager, VoiceReply, VoiceStep};
use bot_core::session::{SessionState, VoiceSession};

fn reply(reply: VoiceReply) -> VoiceStep {
    VoiceStep::Reply { reply }
}

fn active(guild_id: u64, channel_id: u64, handle: u64) -> VoiceSession {
    VoiceSession {
        guild_id,
        channel_id,
        state: SessionState::Active,
        transport_handle: Some(handle),
    }
}

#[test]
fn join_asks_for_a_connection_and_opens_a_connecting_session() {
    let mut manager = LifecycleManager::new();
    assert_eq!(manager.state_of(1), SessionState::Idle);
    assert_eq!(manager.join(1, 42), VoiceStep::Connect { guild_id: 1, channel_id: 42 });
    assert_eq!(
        manager.session(1),
        Some(VoiceSession {
            guild_id: 1,
            channel_id: 42,
            state: SessionState::Connecting,
            transport_handle: None,
        })
    );
    assert_eq!(manager.state_of(1), SessionState::Connecting);
    assert_eq!(
        manager.connect_finished(1, Ok(500)),
        reply(VoiceReply::Joined { channel_id: 42 })
    );
    assert_eq!(manager.session(1), Some(active(1, 42, 500)));
}

#[test]
fn a_second_join_reports_the_channel_of_the_first() {
    let mut manager = LifecycleManager::new();
    manager.join(1, 42);
    manager.connect_finished(1, Ok(500));
    let second = manager.join(1, 99);
    assert_eq!(second, reply(VoiceReply::AlreadyConnected { channel_id: 42 }));
    match second {
        VoiceStep::Reply { reply } => assert_eq!(reply.text(), "already connected to 42"),
        other => panic!("unexpected step {:?}", other),
    }
    assert_eq!(manager.session(1), Some(active(1, 42, 500)));
    assert_eq!(manager.table().len(), 1);
}

#[test]
fn a_second_join_while_connecting_changes_nothing() {
    let mut manager = LifecycleManager::new();
    manager.join(1, 42);
    let before = manager.session(1);
    assert_eq!(manager.join(1, 99), reply(VoiceReply::AlreadyConnected { channel_id: 42 }));
    assert_eq!(manager.join(1, 42), reply(VoiceReply::AlreadyConnected { channel_id: 42 }));
    assert_eq!(manager.session(1), before);
    assert_eq!(manager.table().len(), 1);
}

#[test]
fn a_join_while_leaving_changes_nothing() {
    let mut manager = LifecycleManager::new();
    manager.join(1, 42);
    manager.connect_finished(1, Ok(500));
    manager.leave(1);
    assert_eq!(manager.join(1, 99), reply(VoiceReply::AlreadyConnected { channel_id: 42 }));
    assert_eq!(manager.state_of(1), SessionState::Leaving);
}

#[test]
fn a_failed_connection_removes_the_session() {
    let mut manager = LifecycleManager::new();
    manager.join(1, 42);
    let step = manager.connect_finished(1, Err("no route".to_string()));
    assert_eq!(
        step,
        reply(VoiceReply::JoinFailed { channel_id: 42, reason: "no route".to_string() })
    );
    assert_eq!(manager.session(1), None);
    assert_eq!(manager.state_of(1), SessionState::Idle);
    assert_eq!(manager.table().len(), 0);
    assert_eq!(manager.join(1, 99), VoiceStep::Connect { guild_id: 1, channel_id: 99 });
}

#[test]
fn leave_without_a_session_says_not_connected_and_changes_nothing() {
    let mut manager = LifecycleManager::new();
    manager.join(2, 20);
    manager.connect_finished(2, Ok(7));
    let before = manager.table().sessions();
    let step = manager.leave(1);
    assert_eq!(step, reply(VoiceReply::NotConnected));
    assert_eq!(manager.table().sessions(), before);
    assert_eq!(manager.session(1), None);
    match step {
        VoiceStep::Reply { reply } => assert_eq!(reply.text(), "not currently connected"),
        other => panic!("unexpected step {:?}", other),
    }
}

#[test]
fn leave_disconnects_an_active_session() {
    let mut manager = LifecycleManager::new();
    manager.join(1, 42);
    manager.connect_finished(1, Ok(500));
    assert_eq!(manager.leave(1), VoiceStep::Disconnect { guild_id: 1 });
    assert_eq!(
        manager.session(1),
        Some(VoiceSession {
            guild_id: 1,
            channel_id: 42,
            state: SessionState::Leaving,
            transport_handle: Some(500),
        })
    );
    assert_eq!(manager.disconnect_finished(1, Ok(())), reply(VoiceReply::Left));
    assert_eq!(manager.session(1), None);
    assert_eq!(manager.leave(1), reply(VoiceReply::NotConnected));
}

#[test]
fn a_failed_disconnection_leaves_the_session_active() {
    let mut manager = LifecycleManager::new();
    manager.join(1, 42);
    manager.connect_finished(1, Ok(500));
    manager.leave(1);
    let step = manager.disconnect_finished(1, Err("busy".to_string()));
    assert_eq!(step, reply(VoiceReply::LeaveFailed { reason: "busy".to_string() }));
    assert_eq!(manager.session(1), Some(active(1, 42, 500)));
    assert_eq!(manager.leave(1), VoiceStep::Disconnect { guild_id: 1 });
}

#[test]
fn leave_while_connecting_or_leaving_is_answered_and_changes_nothing() {
    let mut manager = LifecycleManager::new();
    manager.join(1, 42);
    assert_eq!(manager.leave(1), reply(VoiceReply::StillConnecting { channel_id: 42 }));
    assert_eq!(manager.state_of(1), SessionState::Connecting);
    manager.connect_finished(1, Ok(500));
    manager.leave(1);
    assert_eq!(manager.leave(1), reply(VoiceReply::AlreadyLeaving { channel_id: 42 }));
    assert_eq!(manager.state_of(1), SessionState::Leaving);
}

#[test]
fn a_reported_disconnection_removes_the_session() {
    let mut manager = LifecycleManager::new();
    manager.join(1, 42);
    manager.connect_finished(1, Ok(500));
    assert_eq!(manager.disconnected(1), Some(active(1, 42, 500)));
    assert_eq!(manager.session(1), None);
    assert_eq!(manager.state_of(1), SessionState::Idle);
    assert!(!manager.table().contains(1));
    assert_eq!(manager.disconnected(1), None);
}

#[test]
fn a_reported_disconnection_removes_a_connecting_or_leaving_session_too() {
    let mut manager = LifecycleManager::new();
    manager.join(1, 42);
    assert!(manager.disconnected(1).is_some());
    assert_eq!(manager.connect_finished(1, Ok(500)), VoiceStep::Ignore);
    assert_eq!(manager.session(1), None);

    manager.join(1, 42);
    manager.connect_finished(1, Ok(501));
    manager.leave(1);
    assert!(manager.disconnected(1).is_some());
    assert_eq!(manager.disconnect_finished(1, Ok(())), VoiceStep::Ignore);
    assert_eq!(manager.session(1), None);
}

#[test]
fn stale_answers_of_the_transport_change_nothing() {
    let mut manager = LifecycleManager::new();
    assert_eq!(manager.connect_finished(1, Ok(1)), VoiceStep::Ignore);
    assert_eq!(manager.connect_finished(1, Err("x".to_string())), VoiceStep::Ignore);
    assert_eq!(manager.disconnect_finished(1, Ok(())), VoiceStep::Ignore);
    assert_eq!(manager.table().len(), 0);
    manager.join(1, 42);
    assert_eq!(manager.disconnect_finished(1, Ok(())), VoiceStep::Ignore);
    assert_eq!(manager.state_of(1), SessionState::Connecting);
    manager.connect_finished(1, Ok(500));
    assert_eq!(manager.connect_finished(1, Ok(600)), VoiceStep::Ignore);
    assert_eq!(manager.connect_finished(1, Err("x".to_string())), VoiceStep::Ignore);
    assert_eq!(manager.disconnect_finished(1, Err("x".to_string())), VoiceStep::Ignore);
    assert_eq!(manager.session(1), Some(active(1, 42, 500)));
}

#[test]
fn guilds_do_not_touch_each_other() {
    let mut manager = LifecycleManager::new();
    manager.join(1, 42);
    manager.join(2, 43);
    manager.connect_finished(1, Ok(500));
    manager.connect_finished(2, Err("full".to_string()));
    manager.join(3, 44);
    manager.leave(1);
    assert_eq!(manager.state_of(1), SessionState::Leaving);
    assert_eq!(manager.state_of(2), SessionState::Idle);
    assert_eq!(manager.state_of(3), SessionState::Connecting);
    manager.disconnected(3);
    assert_eq!(manager.state_of(1), SessionState::Leaving);
    assert_eq!(manager.table().len(), 1);
}

#[test]
fn join_from_an_author_outside_a_voice_channel_changes_nothing() {
    let mut manager = LifecycleManager::new();
    let step = manager.join_from(1, None);
    assert_eq!(step, reply(VoiceReply::NoVoiceChannel));
    assert_eq!(manager.table().len(), 0);
    assert_eq!(manager.join_from(1, Some(42)), VoiceStep::Connect { guild_id: 1, channel_id: 42 });
    assert_eq!(
        manager.join_from(1, Some(43)),
        reply(VoiceReply::AlreadyConnected { channel_id: 42 })
    );
    assert_eq!(manager.join_from(1, None), reply(VoiceReply::NoVoiceChannel));
    assert_eq!(manager.state_of(1), SessionState::Connecting);
}

#[test]
fn replies_read_as_they_should() {
    assert_eq!(VoiceReply::Joined { channel_id: 42 }.text(), "connected to 42");
    assert_eq!(
        VoiceReply::JoinFailed { channel_id: 7, reason: "no route".to_string() }.text(),
        "failed to connect to 7: no route"
    );
    assert_eq!(
        VoiceReply::AlreadyConnected { channel_id: 18446744073709551615 }.text(),
        "already connected to 18446744073709551615"
    );
    assert_eq!(VoiceReply::NotConnected.text(), "not currently connected");
    assert_eq!(VoiceReply::Left.text(), "Left voice channel");
    assert_eq!(
        VoiceReply::LeaveFailed { reason: "Dropped".to_string() }.text(),
        "Failed: Dropped"
    );
    assert_eq!(VoiceReply::StillConnecting { channel_id: 0 }.text(), "still connecting to 0");
    assert_eq!(VoiceReply::AlreadyLeaving { channel_id: 10 }.text(), "already leaving 10");
    assert_eq!(VoiceReply::NoVoiceChannel.text(), "Not in a voice channel");
}

fn next(seed: &mut u64) -> u64 {
    *seed = seed.wrapping_mul(6364136223846793005).wrapping_add(1442695040888963407);
    *seed >> 33
}

#[test]
fn no_interleaving_gives_a_guild_two_sessions() {
    let mut seed: u64 = 2024;
    let mut manager = LifecycleManager::new();
    for round in 0..4000u64 {
        let guild_id = next(&mut seed) % 5;
        let channel_id = 100 + next(&mut seed) % 7;
        match next(&mut seed) % 7 {
            0 | 1 => {
                manager.join(guild_id, channel_id);
            }
            2 => {
                manager.connect_finished(guild_id, Ok(round));
            }
            3 => {
                manager.connect_finished(guild_id, Err("refused".to_string()));
            }
            4 => {
                manager.leave(guild_id);
            }
            5 => {
                let outcome = if next(&mut seed) % 2 == 0 { Ok(()) } else { Err("late".to_string()) };
                manager.disconnect_finished(guild_id, outcome);
            }
            _ => {
                manager.disconnected(guild_id);
            }
        }
        let sessions = manager.table().sessions();
        assert_eq!(sessions.len(), manager.table().len());
        for guild in 0..5u64 {
            let held: Vec<&VoiceSession> =
                sessions.iter().filter(|s| s.guild_id == guild).collect();
            assert!(held.len() <= 1);
            assert_eq!(held.first().map(|s| **s), manager.session(guild));
            if let Some(session) = manager.session(guild) {
                assert_ne!(session.state, SessionState::Idle);
                assert_eq!(
                    session.transport_handle.is_none(),
                    session.state == SessionState::Connecting
                );
            }
        }
    }
}
