use bot_core::session::{InsertError, SessionState, SessionTable, VoiceSession};

fn session(guild_id: u64, channel_id: u64, state: SessionState) -> VoiceSession {
    VoiceSession { guild_id, channel_id, state, transport_handle: None }
}

#[test]
fn a_new_table_is_empty() {
    let table = SessionTable::new();
    assert_eq!(table.len(), 0);
    assert_eq!(table.get(1), None);
    assert!(!table.contains(1));
    assert_eq!(table.state_of(1), SessionState::Idle);
    assert!(table.sessions().is_empty());
}

#[test]
fn insert_then_get() {
    let mut table = SessionTable::new();
    let s = session(1, 42, SessionState::Connecting);
    assert_eq!(table.insert(1, s), Ok(()));
    assert_eq!(table.get(1), Some(s));
    assert!(table.contains(1));
    assert_eq!(table.state_of(1), SessionState::Connecting);
    assert_eq!(table.len(), 1);
    assert_eq!(table.get(2), None);
}

#[test]
fn insert_fails_where_the_guild_has_a_session() {
    let mut table = SessionTable::new();
    let first = session(1, 42, SessionState::Active);
    table.insert(1, first).unwrap();
    assert_eq!(table.insert(1, session(1, 99, SessionState::Connecting)), Err(InsertError::Occupied));
    assert_eq!(table.insert(1, first), Err(InsertError::Occupied));
    assert_eq!(table.get(1), Some(first));
    assert_eq!(table.len(), 1);
    assert_eq!(table.sessions(), vec![first]);
}

#[test]
fn insert_refuses_a_session_of_another_guild() {
    let mut table = SessionTable::new();
    assert_eq!(
        table.insert(1, session(2, 42, SessionState::Active)),
        Err(InsertError::GuildMismatch)
    );
    assert_eq!(
        table.insert(1, session(2, 42, SessionState::Idle)),
        Err(InsertError::GuildMismatch)
    );
    assert_eq!(table.len(), 0);
}

#[test]
fn insert_refuses_an_idle_session() {
    let mut table = SessionTable::new();
    assert_eq!(table.insert(1, session(1, 42, SessionState::Idle)), Err(InsertError::IdleSession));
    table.insert(1, session(1, 42, SessionState::Leaving)).unwrap();
    assert_eq!(table.insert(1, session(1, 42, SessionState::Idle)), Err(InsertError::IdleSession));
    assert_eq!(table.len(), 1);
}

#[test]
fn remove_returns_the_session_and_frees_the_guild() {
    let mut table = SessionTable::new();
    let a = session(1, 42, SessionState::Active);
    let b = session(2, 43, SessionState::Connecting);
    let c = session(3, 44, SessionState::Leaving);
    table.insert(1, a).unwrap();
    table.insert(2, b).unwrap();
    table.insert(3, c).unwrap();
    assert_eq!(table.remove(2), Some(b));
    assert_eq!(table.remove(2), None);
    assert_eq!(table.get(2), None);
    assert_eq!(table.get(1), Some(a));
    assert_eq!(table.get(3), Some(c));
    assert_eq!(table.sessions(), vec![a, c]);
    let again = session(2, 50, SessionState::Active);
    assert_eq!(table.insert(2, again), Ok(()));
    assert_eq!(table.get(2), Some(again));
    assert_eq!(table.len(), 3);
}

#[test]
fn remove_of_an_absent_guild_changes_nothing() {
    let mut table = SessionTable::new();
    let a = session(1, 42, SessionState::Active);
    table.insert(1, a).unwrap();
    assert_eq!(table.remove(9), None);
    assert_eq!(table.sessions(), vec![a]);
}

#[test]
fn the_largest_guild_identifier_is_a_key_like_any_other() {
    let mut table = SessionTable::new();
    let top = session(u64::MAX, 0, SessionState::Active);
    table.insert(u64::MAX, top).unwrap();
    table.insert(0, session(0, u64::MAX, SessionState::Active)).unwrap();
    assert_eq!(table.get(u64::MAX), Some(top));
    assert_eq!(table.remove(u64::MAX), Some(top));
    assert_eq!(table.len(), 1);
}
