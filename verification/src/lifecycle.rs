//! The voice-session state machine of one guild, and the manager that runs it
//! on the session table.
//!
//! A guild without a session is idle. `join` opens a connecting session and
//! asks for a connection; the transport's answer makes it active or removes
//! it. `leave` turns an active session to leaving and asks for the
//! disconnection; the transport's answer removes it. A disconnection that the
//! transport reports by itself removes the session wherever it stands.

use crate::session::{SessionState, SessionTable, VoiceSession};
use crate::text::{decimal, decimal_text};
use vstd::prelude::*;
use vstd::string::*;

verus! {

/// What the sender of a voice command is told.
#[derive(Debug, PartialEq, Eq)]
pub enum VoiceReply {
    Joined { channel_id: u64 },
    JoinFailed { channel_id: u64, reason: String },
    AlreadyConnected { channel_id: u64 },
    NotConnected,
    Left,
    LeaveFailed { reason: String },
    StillConnecting { channel_id: u64 },
    AlreadyLeaving { channel_id: u64 },
    NoVoiceChannel,
}

/// `VoiceReply` with its texts as sequences of characters.
pub enum VoiceReplyView {
    Joined { channel_id: u64 },
    JoinFailed { channel_id: u64, reason: Seq<char> },
    AlreadyConnected { channel_id: u64 },
    NotConnected,
    Left,
    LeaveFailed { reason: Seq<char> },
    StillConnecting { channel_id: u64 },
    AlreadyLeaving { channel_id: u64 },
    NoVoiceChannel,
}

impl View for VoiceReply {
    type V = VoiceReplyView;

    open spec fn view(&self) -> VoiceReplyView {
        match *self {
            VoiceReply::Joined { channel_id } => VoiceReplyView::Joined { channel_id },
            VoiceReply::JoinFailed { channel_id, reason } => VoiceReplyView::JoinFailed {
                channel_id,
                reason: reason@,
            },
            VoiceReply::AlreadyConnected { channel_id } => VoiceReplyView::AlreadyConnected {
                channel_id,
            },
            VoiceReply::NotConnected => VoiceReplyView::NotConnected,
            VoiceReply::Left => VoiceReplyView::Left,
            VoiceReply::LeaveFailed { reason } => VoiceReplyView::LeaveFailed { reason: reason@ },
            VoiceReply::StillConnecting { channel_id } => VoiceReplyView::StillConnecting {
                channel_id,
            },
            VoiceReply::AlreadyLeaving { channel_id } => VoiceReplyView::AlreadyLeaving {
                channel_id,
            },
            VoiceReply::NoVoiceChannel => VoiceReplyView::NoVoiceChannel,
        }
    }
}

/// The text of a reply.
pub open spec fn reply_text(reply: VoiceReplyView) -> Seq<char> {
    match reply {
        VoiceReplyView::Joined { channel_id } => "connected to "@ + decimal_text(channel_id as nat),
        VoiceReplyView::JoinFailed { channel_id, reason } => "failed to connect to "@
            + decimal_text(channel_id as nat) + ": "@ + reason,
        VoiceReplyView::AlreadyConnected { channel_id } => "already connected to "@ + decimal_text(
            channel_id as nat,
        ),
        VoiceReplyView::NotConnected => "not currently connected"@,
        VoiceReplyView::Left => "Left voice channel"@,
        VoiceReplyView::LeaveFailed { reason } => "Failed: "@ + reason,
        VoiceReplyView::StillConnecting { channel_id } => "still connecting to "@ + decimal_text(
            channel_id as nat,
        ),
        VoiceReplyView::AlreadyLeaving { channel_id } => "already leaving "@ + decimal_text(
            channel_id as nat,
        ),
        VoiceReplyView::NoVoiceChannel => "Not in a voice channel"@,
    }
}

fn with_channel(head: &str, channel_id: u64) -> (s: String)
    ensures
        s@ == head@ + decimal_text(channel_id as nat),
{
    let mut s = String::from_str(head);
    let number = decimal(channel_id);
    s.append(number.as_str());
    s
}

impl VoiceReply {
    /// The text that is sent to the user for this reply.
    pub fn text(&self) -> (s: String)
        ensures
            s@ == reply_text(self@),
    {
        match self {
            VoiceReply::Joined { channel_id } => with_channel("connected to ", *channel_id),
            VoiceReply::JoinFailed { channel_id, reason } => {
                let mut s = with_channel("failed to connect to ", *channel_id);
                s.append(": ");
                s.append(reason.as_str());
                s
            },
            VoiceReply::AlreadyConnected { channel_id } => with_channel(
                "already connected to ",
                *channel_id,
            ),
            VoiceReply::NotConnected => String::from_str("not currently connected"),
            VoiceReply::Left => String::from_str("Left voice channel"),
            VoiceReply::LeaveFailed { reason } => {
                let mut s = String::from_str("Failed: ");
                s.append(reason.as_str());
                s
            },
            VoiceReply::StillConnecting { channel_id } => with_channel(
                "still connecting to ",
                *channel_id,
            ),
            VoiceReply::AlreadyLeaving { channel_id } => with_channel(
                "already leaving ",
                *channel_id,
            ),
            VoiceReply::NoVoiceChannel => String::from_str("Not in a voice channel"),
        }
    }
}

/// What the caller has to do after a step of the state machine.
#[derive(Debug, PartialEq, Eq)]
pub enum VoiceStep {
    /// Ask the audio transport to connect, then report with
    /// `connect_finished`.
    Connect { guild_id: u64, channel_id: u64 },
    /// Ask the audio transport to disconnect, then report with
    /// `disconnect_finished`.
    Disconnect { guild_id: u64 },
    /// Send the reply to the user.
    Reply { reply: VoiceReply },
    /// Nothing to do.
    Ignore,
}

/// `VoiceStep` with its reply as a view.
pub enum VoiceStepView {
    Connect { guild_id: u64, channel_id: u64 },
    Disconnect { guild_id: u64 },
    Reply { reply: VoiceReplyView },
    Ignore,
}

impl View for VoiceStep {
    type V = VoiceStepView;

    open spec fn view(&self) -> VoiceStepView {
        match *self {
            VoiceStep::Connect { guild_id, channel_id } => VoiceStepView::Connect {
                guild_id,
                channel_id,
            },
            VoiceStep::Disconnect { guild_id } => VoiceStepView::Disconnect { guild_id },
            VoiceStep::Reply { reply } => VoiceStepView::Reply { reply: reply@ },
            VoiceStep::Ignore => VoiceStepView::Ignore,
        }
    }
}

/// The session that `join` opens.
pub open spec fn connecting(guild_id: u64, channel_id: u64) -> VoiceSession {
    VoiceSession {
        guild_id,
        channel_id,
        state: SessionState::Connecting,
        transport_handle: None,
    }
}

/// The table after `join`.
pub open spec fn join_table(
    table: Map<u64, VoiceSession>,
    guild_id: u64,
    channel_id: u64,
) -> Map<u64, VoiceSession> {
    if table.contains_key(guild_id) {
        table
    } else {
        table.insert(guild_id, connecting(guild_id, channel_id))
    }
}

/// What `join` asks of its caller.
pub open spec fn join_step(
    table: Map<u64, VoiceSession>,
    guild_id: u64,
    channel_id: u64,
) -> VoiceStepView {
    if table.contains_key(guild_id) {
        VoiceStepView::Reply {
            reply: VoiceReplyView::AlreadyConnected { channel_id: table[guild_id].channel_id },
        }
    } else {
        VoiceStepView::Connect { guild_id, channel_id }
    }
}

/// Whether the guild has a session in the given state.
pub open spec fn stands(table: Map<u64, VoiceSession>, guild_id: u64, state: SessionState) -> bool {
    table.contains_key(guild_id) && table[guild_id].state == state
}

/// The table after the transport has answered a connection request.
pub open spec fn connect_finished_table(
    table: Map<u64, VoiceSession>,
    guild_id: u64,
    outcome: Result<u64, Seq<char>>,
) -> Map<u64, VoiceSession> {
    if stands(table, guild_id, SessionState::Connecting) {
        match outcome {
            Ok(handle) => table.insert(
                guild_id,
                VoiceSession {
                    state: SessionState::Active,
                    transport_handle: Some(handle),
                    ..table[guild_id]
                },
            ),
            Err(_) => table.remove(guild_id),
        }
    } else {
        table
    }
}

/// What `connect_finished` asks of its caller.
pub open spec fn connect_finished_step(
    table: Map<u64, VoiceSession>,
    guild_id: u64,
    outcome: Result<u64, Seq<char>>,
) -> VoiceStepView {
    if stands(table, guild_id, SessionState::Connecting) {
        match outcome {
            Ok(_) => VoiceStepView::Reply {
                reply: VoiceReplyView::Joined { channel_id: table[guild_id].channel_id },
            },
            Err(reason) => VoiceStepView::Reply {
                reply: VoiceReplyView::JoinFailed {
                    channel_id: table[guild_id].channel_id,
                    reason,
                },
            },
        }
    } else {
        VoiceStepView::Ignore
    }
}

/// The table after `leave`.
pub open spec fn leave_table(table: Map<u64, VoiceSession>, guild_id: u64) -> Map<
    u64,
    VoiceSession,
> {
    if stands(table, guild_id, SessionState::Active) {
        table.insert(guild_id, VoiceSession { state: SessionState::Leaving, ..table[guild_id] })
    } else {
        table
    }
}

/// What `leave` asks of its caller.
pub open spec fn leave_step(table: Map<u64, VoiceSession>, guild_id: u64) -> VoiceStepView {
    if !table.contains_key(guild_id) {
        VoiceStepView::Reply { reply: VoiceReplyView::NotConnected }
    } else {
        match table[guild_id].state {
            SessionState::Active => VoiceStepView::Disconnect { guild_id },
            SessionState::Connecting => VoiceStepView::Reply {
                reply: VoiceReplyView::StillConnecting { channel_id: table[guild_id].channel_id },
            },
            _ => VoiceStepView::Reply {
                reply: VoiceReplyView::AlreadyLeaving { channel_id: table[guild_id].channel_id },
            },
        }
    }
}

/// The table after the transport has answered a disconnection request.
pub open spec fn disconnect_finished_table(
    table: Map<u64, VoiceSession>,
    guild_id: u64,
    outcome: Result<(), Seq<char>>,
) -> Map<u64, VoiceSession> {
    if stands(table, guild_id, SessionState::Leaving) {
        match outcome {
            Ok(_) => table.remove(guild_id),
            Err(_) => table.insert(
                guild_id,
                VoiceSession { state: SessionState::Active, ..table[guild_id] },
            ),
        }
    } else {
        table
    }
}

/// What `disconnect_finished` asks of its caller.
pub open spec fn disconnect_finished_step(
    table: Map<u64, VoiceSession>,
    guild_id: u64,
    outcome: Result<(), Seq<char>>,
) -> VoiceStepView {
    if stands(table, guild_id, SessionState::Leaving) {
        match outcome {
            Ok(_) => VoiceStepView::Reply { reply: VoiceReplyView::Left },
            Err(reason) => VoiceStepView::Reply { reply: VoiceReplyView::LeaveFailed { reason } },
        }
    } else {
        VoiceStepView::Ignore
    }
}

/// Whether a session's handle fits its state: a session has the transport's
/// handle from the moment it is active, and not before.
pub open spec fn handle_fits(session: VoiceSession) -> bool {
    session.state is Connecting <==> session.transport_handle is None
}

/// Every session of `table` is stored under its own guild, is not idle, and
/// has a handle that fits its state.
pub open spec fn sessions_sound(table: Map<u64, VoiceSession>) -> bool {
    forall|g: u64| #[trigger]
        table.contains_key(g) ==> table[g].guild_id == g && !(table[g].state is Idle)
            && handle_fits(table[g])
}

/// Runs the state machine of every guild on one session table.
pub struct LifecycleManager {
    table: SessionTable,
}

impl View for LifecycleManager {
    type V = Map<u64, VoiceSession>;

    closed spec fn view(&self) -> Map<u64, VoiceSession> {
        self.table@
    }
}

impl LifecycleManager {
    /// The session table behind the manager.
    pub closed spec fn spec_table(&self) -> SessionTable {
        self.table
    }

    /// What holds of every manager: see `sessions_sound`.
    #[verifier::type_invariant]
    pub closed spec fn wf(&self) -> bool {
        sessions_sound(self.table@)
    }

    /// A manager without sessions.
    pub fn new() -> (manager: Self)
        ensures
            manager@ == Map::<u64, VoiceSession>::empty(),
    {
        LifecycleManager { table: SessionTable::new() }
    }

    /// The session table, to read.
    pub fn table(&self) -> (table: &SessionTable)
        ensures
            table@ == self@,
            *table == self.spec_table(),
    {
        &self.table
    }

    /// The session of `guild_id`, if it has one.
    pub fn session(&self, guild_id: u64) -> (found: Option<VoiceSession>)
        ensures
            found == if self@.contains_key(guild_id) {
                Some(self@[guild_id])
            } else {
                None
            },
    {
        self.table.get(guild_id)
    }

    /// The state of `guild_id`: `Idle` where it has no session.
    pub fn state_of(&self, guild_id: u64) -> (state: SessionState)
        ensures
            state == if self@.contains_key(guild_id) {
                self@[guild_id].state
            } else {
                SessionState::Idle
            },
    {
        self.table.state_of(guild_id)
    }

    fn put(&mut self, session: VoiceSession)
        requires
            !(session.state is Idle),
            handle_fits(session),
        ensures
            final(self)@ == old(self)@.insert(session.guild_id, session),
    {
        proof {
            use_type_invariant(&*self);
        }
        let mut table = SessionTable::new();
        std::mem::swap(&mut table, &mut self.table);
        let _ = table.remove(session.guild_id);
        let done = table.insert(session.guild_id, session);
        assert(done is Ok);
        assert(table@ =~= old(self)@.insert(session.guild_id, session));
        self.table = table;
    }

    fn take(&mut self, guild_id: u64) -> (removed: Option<VoiceSession>)
        ensures
            final(self)@ == old(self)@.remove(guild_id),
            removed == if old(self)@.contains_key(guild_id) {
                Some(old(self)@[guild_id])
            } else {
                None
            },
    {
        proof {
            use_type_invariant(&*self);
        }
        let mut table = SessionTable::new();
        std::mem::swap(&mut table, &mut self.table);
        let removed = table.remove(guild_id);
        self.table = table;
        removed
    }

    /// A request to join `channel_id`. A guild without a session gets a
    /// connecting one and the caller is asked to connect. A guild that has a
    /// session keeps it untouched, and the reply names its channel.
    pub fn join(&mut self, guild_id: u64, channel_id: u64) -> (step: VoiceStep)
        ensures
            final(self)@ == join_table(old(self)@, guild_id, channel_id),
            step@ == join_step(old(self)@, guild_id, channel_id),
    {
        match self.table.get(guild_id) {
            Some(existing) => VoiceStep::Reply {
                reply: VoiceReply::AlreadyConnected { channel_id: existing.channel_id },
            },
            None => {
                self.put(
                    VoiceSession {
                        guild_id,
                        channel_id,
                        state: SessionState::Connecting,
                        transport_handle: None,
                    },
                );
                VoiceStep::Connect { guild_id, channel_id }
            },
        }
    }

    /// A request to join the voice channel that its author is in. Where the
    /// author is in none, nothing changes and the reply says so; else the
    /// request is that of `join` for this channel.
    pub fn join_from(&mut self, guild_id: u64, author_channel: Option<u64>) -> (step: VoiceStep)
        ensures
            final(self)@ == match author_channel {
                Some(channel_id) => join_table(old(self)@, guild_id, channel_id),
                None => old(self)@,
            },
            step@ == match author_channel {
                Some(channel_id) => join_step(old(self)@, guild_id, channel_id),
                None => VoiceStepView::Reply { reply: VoiceReplyView::NoVoiceChannel },
            },
    {
        match author_channel {
            Some(channel_id) => self.join(guild_id, channel_id),
            None => VoiceStep::Reply { reply: VoiceReply::NoVoiceChannel },
        }
    }

    /// The transport's answer to a connection request: its handle, or why it
    /// failed. A connecting session becomes active with the handle, or is
    /// removed. For a guild that is not connecting the answer is stale and
    /// changes nothing.
    pub fn connect_finished(&mut self, guild_id: u64, outcome: Result<u64, String>) -> (step:
        VoiceStep)
        ensures
            final(self)@ == connect_finished_table(old(self)@, guild_id, outcome_view(outcome)),
            step@ == connect_finished_step(old(self)@, guild_id, outcome_view(outcome)),
    {
        match self.table.get(guild_id) {
            Some(session) => match session.state {
                SessionState::Connecting => match outcome {
                    Ok(handle) => {
                        self.put(
                            VoiceSession {
                                guild_id: session.guild_id,
                                channel_id: session.channel_id,
                                state: SessionState::Active,
                                transport_handle: Some(handle),
                            },
                        );
                        VoiceStep::Reply {
                            reply: VoiceReply::Joined { channel_id: session.channel_id },
                        }
                    },
                    Err(reason) => {
                        let _ = self.take(guild_id);
                        VoiceStep::Reply {
                            reply: VoiceReply::JoinFailed {
                                channel_id: session.channel_id,
                                reason,
                            },
                        }
                    },
                },
                _ => VoiceStep::Ignore,
            },
            None => VoiceStep::Ignore,
        }
    }

    /// A request to leave. An active session turns to leaving and the caller
    /// is asked to disconnect. Without a session the reply is
    /// `NotConnected`; a session that is connecting or leaving gets a reply
    /// that says so. In those cases the table stays as it is.
    pub fn leave(&mut self, guild_id: u64) -> (step: VoiceStep)
        ensures
            final(self)@ == leave_table(old(self)@, guild_id),
            step@ == leave_step(old(self)@, guild_id),
    {
        proof {
            use_type_invariant(&*self);
        }
        match self.table.get(guild_id) {
            None => VoiceStep::Reply { reply: VoiceReply::NotConnected },
            Some(session) => match session.state {
                SessionState::Active => {
                    self.put(
                        VoiceSession {
                            guild_id: session.guild_id,
                            channel_id: session.channel_id,
                            state: SessionState::Leaving,
                            transport_handle: session.transport_handle,
                        },
                    );
                    VoiceStep::Disconnect { guild_id }
                },
                SessionState::Connecting => VoiceStep::Reply {
                    reply: VoiceReply::StillConnecting { channel_id: session.channel_id },
                },
                _ => VoiceStep::Reply {
                    reply: VoiceReply::AlreadyLeaving { channel_id: session.channel_id },
                },
            },
        }
    }

    /// The transport's answer to a disconnection request. A leaving session
    /// is removed if the transport disconnected; if it could not, the session
    /// is active again, so that a later `leave` can try once more. For a
    /// guild that is not leaving the answer is stale and changes nothing.
    pub fn disconnect_finished(&mut self, guild_id: u64, outcome: Result<(), String>) -> (step:
        VoiceStep)
        ensures
            final(self)@ == disconnect_finished_table(
                old(self)@,
                guild_id,
                unit_outcome_view(outcome),
            ),
            step@ == disconnect_finished_step(old(self)@, guild_id, unit_outcome_view(outcome)),
    {
        proof {
            use_type_invariant(&*self);
        }
        match self.table.get(guild_id) {
            Some(session) => match session.state {
                SessionState::Leaving => match outcome {
                    Ok(_) => {
                        let _ = self.take(guild_id);
                        VoiceStep::Reply { reply: VoiceReply::Left }
                    },
                    Err(reason) => {
                        self.put(
                            VoiceSession {
                                guild_id: session.guild_id,
                                channel_id: session.channel_id,
                                state: SessionState::Active,
                                transport_handle: session.transport_handle,
                            },
                        );
                        VoiceStep::Reply { reply: VoiceReply::LeaveFailed { reason } }
                    },
                },
                _ => VoiceStep::Ignore,
            },
            None => VoiceStep::Ignore,
        }
    }

    /// The transport reports by itself that the guild is disconnected. The
    /// guild's session is removed, whatever its state, and returned.
    pub fn disconnected(&mut self, guild_id: u64) -> (removed: Option<VoiceSession>)
        ensures
            final(self)@ == old(self)@.remove(guild_id),
            removed == if old(self)@.contains_key(guild_id) {
                Some(old(self)@[guild_id])
            } else {
                None
            },
    {
        self.take(guild_id)
    }
}

/// The transport's answer to a connection request, as a value of
/// specifications.
pub open spec fn outcome_view(outcome: Result<u64, String>) -> Result<u64, Seq<char>> {
    match outcome {
        Ok(handle) => Ok(handle),
        Err(reason) => Err(reason@),
    }
}

/// The transport's answer to a disconnection request, as a value of
/// specifications.
pub open spec fn unit_outcome_view(outcome: Result<(), String>) -> Result<(), Seq<char>> {
    match outcome {
        Ok(_) => Ok(()),
        Err(reason) => Err(reason@),
    }
}

/// Every session that a manager holds is stored under its own guild, is
/// connecting, active or leaving, and has the transport's handle exactly if
/// it is active or leaving.
pub proof fn lemma_sessions_sound(manager: LifecycleManager)
    requires
        manager.wf(),
    ensures
        sessions_sound(manager@),
{
}

/// Every step of the state machine keeps the sessions sound.
pub proof fn lemma_steps_keep_sessions_sound(
    table: Map<u64, VoiceSession>,
    guild_id: u64,
    channel_id: u64,
    connect_outcome: Result<u64, Seq<char>>,
    disconnect_outcome: Result<(), Seq<char>>,
)
    requires
        sessions_sound(table),
    ensures
        sessions_sound(join_table(table, guild_id, channel_id)),
        sessions_sound(connect_finished_table(table, guild_id, connect_outcome)),
        sessions_sound(leave_table(table, guild_id)),
        sessions_sound(disconnect_finished_table(table, guild_id, disconnect_outcome)),
        sessions_sound(table.remove(guild_id)),
{
}

/// A second `join` for a guild, with no `leave` and no disconnection since
/// the first, changes nothing: the guild keeps the one session that it had
/// after the first, and the reply names that session's channel. Where the
/// guild had no session before the first, that channel is the first one's.
pub proof fn lemma_join_twice(
    table: Map<u64, VoiceSession>,
    guild_id: u64,
    first_channel: u64,
    second_channel: u64,
)
    ensures
        ({
            let after_first = join_table(table, guild_id, first_channel);
            &&& after_first.contains_key(guild_id)
            &&& join_table(after_first, guild_id, second_channel) == after_first
            &&& join_step(after_first, guild_id, second_channel) == (VoiceStepView::Reply {
                reply: VoiceReplyView::AlreadyConnected {
                    channel_id: after_first[guild_id].channel_id,
                },
            })
            &&& !table.contains_key(guild_id) ==> after_first[guild_id].channel_id
                == first_channel
        }),
{
}

/// The same where the transport has connected in between: the session is
/// active on the first channel, and the second `join` leaves it so.
pub proof fn lemma_join_while_active(
    table: Map<u64, VoiceSession>,
    guild_id: u64,
    first_channel: u64,
    handle: u64,
    second_channel: u64,
)
    requires
        !table.contains_key(guild_id),
    ensures
        ({
            let connected = connect_finished_table(
                join_table(table, guild_id, first_channel),
                guild_id,
                Ok(handle),
            );
            &&& connected[guild_id] == (VoiceSession {
                guild_id,
                channel_id: first_channel,
                state: SessionState::Active,
                transport_handle: Some(handle),
            })
            &&& join_table(connected, guild_id, second_channel) == connected
            &&& join_step(connected, guild_id, second_channel) == (VoiceStepView::Reply {
                reply: VoiceReplyView::AlreadyConnected { channel_id: first_channel },
            })
        }),
{
}

/// `leave` for a guild without a session leaves the table as it is and
/// answers `NotConnected`; no other state of the guild gets that answer.
pub proof fn lemma_leave_without_session(table: Map<u64, VoiceSession>, guild_id: u64)
    ensures
        !table.contains_key(guild_id) ==> leave_table(table, guild_id) == table,
        !table.contains_key(guild_id) <==> leave_step(table, guild_id) == (VoiceStepView::Reply {
            reply: VoiceReplyView::NotConnected,
        }),
{
}

/// No other reply reads like `NotConnected`.
pub proof fn lemma_not_connected_reads_apart(reply: VoiceReplyView)
    requires
        reply_text(reply) == reply_text(VoiceReplyView::NotConnected),
    ensures
        reply is NotConnected,
{
    reveal_strlit("not currently connected");
    reveal_strlit("connected to ");
    reveal_strlit("failed to connect to ");
    reveal_strlit("already connected to ");
    reveal_strlit("Left voice channel");
    reveal_strlit("Failed: ");
    reveal_strlit("still connecting to ");
    reveal_strlit("already leaving ");
    reveal_strlit("Not in a voice channel");
    let text = reply_text(reply);
    assert(reply_text(VoiceReplyView::NotConnected)[0] == 'n');
    match reply {
        VoiceReplyView::Joined { .. } => {
            assert(text[0] == 'c');
        },
        VoiceReplyView::JoinFailed { .. } => {
            assert(text[0] == 'f');
        },
        VoiceReplyView::AlreadyConnected { .. } => {
            assert(text[0] == 'a');
        },
        VoiceReplyView::NotConnected => {},
        VoiceReplyView::Left => {
            assert(text[0] == 'L');
        },
        VoiceReplyView::LeaveFailed { .. } => {
            assert(text[0] == 'F');
        },
        VoiceReplyView::StillConnecting { .. } => {
            assert(text[0] == 's');
        },
        VoiceReplyView::AlreadyLeaving { .. } => {
            assert(text[0] == 'a');
        },
        VoiceReplyView::NoVoiceChannel => {
            assert(text[0] == 'N');
        },
    }
}

/// After a disconnection that the transport reports, the guild has no
/// session, whatever it had, and every other guild has what it had.
pub proof fn lemma_disconnected_is_idle(table: Map<u64, VoiceSession>, guild_id: u64, other: u64)
    requires
        other != guild_id,
    ensures
        !table.remove(guild_id).contains_key(guild_id),
        table.remove(guild_id).contains_key(other) == table.contains_key(other),
        table.contains_key(other) ==> table.remove(guild_id)[other] == table[other],
{
}

} // verus!
