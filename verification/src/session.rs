//! Voice sessions and the table that holds at most one of them per guild.

use vstd::prelude::*;

verus! {

/// Where a guild's voice session stands. `Idle` is the state of a guild
/// without a session: the table never stores it.
#[derive(Clone, Copy, Debug, PartialEq, Eq, Structural)]
pub enum SessionState {
    Idle,
    Connecting,
    Active,
    Leaving,
}

/// One guild's voice session.
#[derive(Clone, Copy, Debug, PartialEq, Eq, Structural)]
pub struct VoiceSession {
    pub guild_id: u64,
    pub channel_id: u64,
    pub state: SessionState,
    /// The audio transport's handle, once it has connected.
    pub transport_handle: Option<u64>,
}

/// Why `SessionTable::insert` refused a session.
#[derive(Clone, Copy, Debug, PartialEq, Eq, Structural)]
pub enum InsertError {
    /// The session names another guild than the key it was offered under.
    GuildMismatch,
    /// The session is idle: an idle guild has no entry.
    IdleSession,
    /// The guild already has a session, which must be removed first.
    Occupied,
}

/// Number of sessions among `rows` that belong to `guild_id`.
pub open spec fn count_for(rows: Seq<VoiceSession>, guild_id: u64) -> nat
    decreases rows.len(),
{
    if rows.len() == 0 {
        0
    } else {
        count_for(rows.drop_last(), guild_id) + if rows.last().guild_id == guild_id {
            1nat
        } else {
            0nat
        }
    }
}

/// The sessions of `rows`, keyed by guild.
pub open spec fn by_guild(rows: Seq<VoiceSession>) -> Map<u64, VoiceSession> {
    Map::new(
        |g: u64| exists|i: int| 0 <= i < rows.len() && #[trigger] rows[i].guild_id == g,
        |g: u64| rows[choose|i: int| 0 <= i < rows.len() && #[trigger] rows[i].guild_id == g],
    )
}

/// No two sessions of `rows` belong to one guild, and none is idle.
pub open spec fn rows_valid(rows: Seq<VoiceSession>) -> bool {
    &&& forall|i: int, j: int|
        0 <= i < j < rows.len() ==> #[trigger] rows[i].guild_id != #[trigger] rows[j].guild_id
    &&& forall|i: int| 0 <= i < rows.len() ==> !(#[trigger] rows[i].state is Idle)
}

/// The session table: guild identifier to voice session.
pub struct SessionTable {
    rows: Vec<VoiceSession>,
}

impl View for SessionTable {
    type V = Map<u64, VoiceSession>;

    closed spec fn view(&self) -> Map<u64, VoiceSession> {
        by_guild(self.rows@)
    }
}

impl SessionTable {
    /// The stored sessions, in the order in which they were inserted.
    pub closed spec fn records(&self) -> Seq<VoiceSession> {
        self.rows@
    }

    /// What holds of every table: see `rows_valid`.
    #[verifier::type_invariant]
    pub closed spec fn wf(&self) -> bool {
        rows_valid(self.rows@)
    }

    /// Number of stored sessions that belong to `guild_id`.
    pub open spec fn census(&self, guild_id: u64) -> nat {
        count_for(self.records(), guild_id)
    }

    /// The state that an observer sees for `guild_id`.
    pub open spec fn spec_state_of(&self, guild_id: u64) -> SessionState {
        if self@.contains_key(guild_id) {
            self@[guild_id].state
        } else {
            SessionState::Idle
        }
    }

    /// A table without sessions.
    pub fn new() -> (table: Self)
        ensures
            table@ == Map::<u64, VoiceSession>::empty(),
            table.records() == Seq::<VoiceSession>::empty(),
    {
        let table = SessionTable { rows: Vec::new() };
        assert(table@ =~= Map::<u64, VoiceSession>::empty());
        table
    }

    fn position(&self, guild_id: u64) -> (at: Option<usize>)
        ensures
            match at {
                Some(i) => i < self.rows@.len() && self.rows@[i as int].guild_id == guild_id,
                None => forall|j: int|
                    0 <= j < self.rows@.len() ==> (#[trigger] self.rows@[j]).guild_id != guild_id,
            },
    {
        let mut i: usize = 0;
        while i < self.rows.len()
            invariant
                i <= self.rows@.len(),
                forall|j: int| 0 <= j < i ==> (#[trigger] self.rows@[j]).guild_id != guild_id,
            decreases self.rows@.len() - i,
        {
            if self.rows[i].guild_id == guild_id {
                return Some(i);
            }
            i = i + 1;
        }
        None
    }

    /// The session of `guild_id`, if it has one.
    pub fn get(&self, guild_id: u64) -> (found: Option<VoiceSession>)
        ensures
            found == if self@.contains_key(guild_id) {
                Some(self@[guild_id])
            } else {
                None
            },
            found matches Some(s) ==> s.guild_id == guild_id && !(s.state is Idle),
    {
        proof {
            use_type_invariant(self);
        }
        match self.position(guild_id) {
            Some(i) => {
                proof {
                    lemma_by_guild_at(self.rows@, i as int);
                }
                Some(self.rows[i])
            },
            None => None,
        }
    }

    /// Whether `guild_id` has a session.
    pub fn contains(&self, guild_id: u64) -> (present: bool)
        ensures
            present == self@.contains_key(guild_id),
    {
        self.position(guild_id).is_some()
    }

    /// The state that an observer sees for `guild_id`: that of its session,
    /// or `Idle` where it has none.
    pub fn state_of(&self, guild_id: u64) -> (state: SessionState)
        ensures
            state == self.spec_state_of(guild_id),
    {
        match self.get(guild_id) {
            Some(s) => s.state,
            None => SessionState::Idle,
        }
    }

    /// Number of sessions in the table.
    pub fn len(&self) -> (n: usize)
        ensures
            n == self.records().len(),
            n == self@.dom().len(),
            self@.dom().finite(),
    {
        proof {
            use_type_invariant(self);
            lemma_by_guild_len(self.rows@);
        }
        self.rows.len()
    }

    /// Every session in the table, in the order of `records`.
    pub fn sessions(&self) -> (all: Vec<VoiceSession>)
        ensures
            all@ == self.records(),
    {
        self.rows.clone()
    }

    /// Stores `session` under `guild_id`. Fails, and changes nothing, if the
    /// session names another guild, is idle, or if the guild already has a
    /// session.
    pub fn insert(&mut self, guild_id: u64, session: VoiceSession) -> (done: Result<(), InsertError>)
        ensures
            done == insert_outcome(old(self)@, guild_id, session),
            final(self)@ == if done is Ok {
                old(self)@.insert(guild_id, session)
            } else {
                old(self)@
            },
            final(self).records() == if done is Ok {
                old(self).records().push(session)
            } else {
                old(self).records()
            },
    {
        proof {
            use_type_invariant(&*self);
        }
        if session.guild_id != guild_id {
            return Err(InsertError::GuildMismatch);
        }
        match session.state {
            SessionState::Idle => {
                return Err(InsertError::IdleSession);
            },
            _ => {},
        }
        if self.position(guild_id).is_some() {
            return Err(InsertError::Occupied);
        }
        let mut rows: Vec<VoiceSession> = Vec::new();
        std::mem::swap(&mut rows, &mut self.rows);
        rows.push(session);
        proof {
            lemma_by_guild_push(old(self).rows@, session);
        }
        self.rows = rows;
        Ok(())
    }

    /// Takes the session of `guild_id` out of the table and returns it.
    pub fn remove(&mut self, guild_id: u64) -> (removed: Option<VoiceSession>)
        ensures
            removed == if old(self)@.contains_key(guild_id) {
                Some(old(self)@[guild_id])
            } else {
                None
            },
            final(self)@ == old(self)@.remove(guild_id),
    {
        proof {
            use_type_invariant(&*self);
        }
        match self.position(guild_id) {
            Some(i) => {
                let mut rows: Vec<VoiceSession> = Vec::new();
                std::mem::swap(&mut rows, &mut self.rows);
                let session = rows.remove(i);
                proof {
                    lemma_by_guild_at(old(self).rows@, i as int);
                    lemma_by_guild_remove(old(self).rows@, i as int);
                }
                self.rows = rows;
                Some(session)
            },
            None => {
                assert(self@ =~= old(self)@.remove(guild_id));
                None
            },
        }
    }
}

/// What `SessionTable::insert` answers for a table that holds `table`.
pub open spec fn insert_outcome(
    table: Map<u64, VoiceSession>,
    guild_id: u64,
    session: VoiceSession,
) -> Result<(), InsertError> {
    if session.guild_id != guild_id {
        Err(InsertError::GuildMismatch)
    } else if session.state is Idle {
        Err(InsertError::IdleSession)
    } else if table.contains_key(guild_id) {
        Err(InsertError::Occupied)
    } else {
        Ok(())
    }
}

/// In valid rows, the entry at `i` is the one that the map holds for its guild.
proof fn lemma_by_guild_at(rows: Seq<VoiceSession>, i: int)
    requires
        rows_valid(rows),
        0 <= i < rows.len(),
    ensures
        by_guild(rows).contains_key(rows[i].guild_id),
        by_guild(rows)[rows[i].guild_id] == rows[i],
{
    let g = rows[i].guild_id;
    let k = choose|k: int| 0 <= k < rows.len() && #[trigger] rows[k].guild_id == g;
    assert(k == i) by {
        if k < i {
            assert(rows[k].guild_id != rows[i].guild_id);
        } else if i < k {
            assert(rows[i].guild_id != rows[k].guild_id);
        }
    }
}

proof fn lemma_by_guild_push(rows: Seq<VoiceSession>, session: VoiceSession)
    requires
        rows_valid(rows),
        !(session.state is Idle),
        !by_guild(rows).contains_key(session.guild_id),
    ensures
        rows_valid(rows.push(session)),
        by_guild(rows.push(session)) == by_guild(rows).insert(session.guild_id, session),
{
    let after = rows.push(session);
    assert forall|i: int, j: int| 0 <= i < j < after.len() implies #[trigger] after[i].guild_id
        != #[trigger] after[j].guild_id by {
        if j == rows.len() {
            assert(rows[i].guild_id != session.guild_id);
        } else {
            assert(rows[i].guild_id != rows[j].guild_id);
        }
    }
    assert(rows_valid(after));
    assert forall|g: u64| #[trigger]
        by_guild(after).contains_key(g) <==> by_guild(rows).insert(
            session.guild_id,
            session,
        ).contains_key(g) by {
        if by_guild(after).contains_key(g) {
            let i = choose|i: int| 0 <= i < after.len() && #[trigger] after[i].guild_id == g;
            if i < rows.len() {
                assert(rows[i].guild_id == g);
            }
        }
        if by_guild(rows).contains_key(g) {
            let i = choose|i: int| 0 <= i < rows.len() && #[trigger] rows[i].guild_id == g;
            assert(after[i].guild_id == g);
        }
        if g == session.guild_id {
            assert(after[rows.len() as int].guild_id == g);
        }
    }
    assert forall|g: u64| #[trigger] by_guild(after).contains_key(g) implies by_guild(after)[g]
        == by_guild(rows).insert(session.guild_id, session)[g] by {
        let i = choose|i: int| 0 <= i < after.len() && #[trigger] after[i].guild_id == g;
        lemma_by_guild_at(after, i);
        if i < rows.len() {
            assert(rows[i] == after[i]);
            lemma_by_guild_at(rows, i);
        }
    }
    assert(by_guild(after) =~= by_guild(rows).insert(session.guild_id, session));
}

proof fn lemma_by_guild_remove(rows: Seq<VoiceSession>, at: int)
    requires
        rows_valid(rows),
        0 <= at < rows.len(),
    ensures
        rows_valid(rows.remove(at)),
        by_guild(rows.remove(at)) == by_guild(rows).remove(rows[at].guild_id),
{
    let after = rows.remove(at);
    let gone = rows[at].guild_id;
    assert forall|i: int| 0 <= i < after.len() implies #[trigger] after[i] == rows[if i < at {
        i
    } else {
        i + 1
    }] by {}
    assert forall|i: int, j: int| 0 <= i < j < after.len() implies #[trigger] after[i].guild_id
        != #[trigger] after[j].guild_id by {
        let a = if i < at { i } else { i + 1 };
        let b = if j < at { j } else { j + 1 };
        assert(rows[a].guild_id != rows[b].guild_id);
    }
    assert forall|i: int| 0 <= i < after.len() implies !(#[trigger] after[i].state is Idle) by {
        let a = if i < at { i } else { i + 1 };
        assert(!(rows[a].state is Idle));
    }
    assert(rows_valid(after));
    assert forall|g: u64| #[trigger]
        by_guild(after).contains_key(g) <==> by_guild(rows).remove(gone).contains_key(g) by {
        if by_guild(after).contains_key(g) {
            let i = choose|i: int| 0 <= i < after.len() && #[trigger] after[i].guild_id == g;
            let a = if i < at { i } else { i + 1 };
            assert(rows[a].guild_id == g);
            if a < at {
                assert(rows[a].guild_id != rows[at].guild_id);
            } else {
                assert(rows[at].guild_id != rows[a].guild_id);
            }
        }
        if by_guild(rows).remove(gone).contains_key(g) {
            let a = choose|a: int| 0 <= a < rows.len() && #[trigger] rows[a].guild_id == g;
            let i = if a < at { a } else { a - 1 };
            assert(after[i].guild_id == g);
        }
    }
    assert forall|g: u64| #[trigger] by_guild(after).contains_key(g) implies by_guild(after)[g]
        == by_guild(rows).remove(gone)[g] by {
        let i = choose|i: int| 0 <= i < after.len() && #[trigger] after[i].guild_id == g;
        lemma_by_guild_at(after, i);
        let a = if i < at { i } else { i + 1 };
        lemma_by_guild_at(rows, a);
    }
    assert(by_guild(after) =~= by_guild(rows).remove(gone));
}

proof fn lemma_by_guild_len(rows: Seq<VoiceSession>)
    requires
        rows_valid(rows),
    ensures
        by_guild(rows).dom().finite(),
        by_guild(rows).dom().len() == rows.len(),
    decreases rows.len(),
{
    if rows.len() == 0 {
        assert(by_guild(rows).dom() =~= Set::<u64>::empty());
    } else {
        let head = rows.drop_last();
        let last = rows.last();
        assert forall|i: int, j: int| 0 <= i < j < head.len() implies #[trigger] head[i].guild_id
            != #[trigger] head[j].guild_id by {
            assert(rows[i].guild_id != rows[j].guild_id);
        }
        assert forall|i: int| 0 <= i < head.len() implies !(#[trigger] head[i].state is Idle) by {
            assert(!(rows[i].state is Idle));
        }
        lemma_by_guild_len(head);
        if by_guild(head).contains_key(last.guild_id) {
            let i = choose|i: int| 0 <= i < head.len() && #[trigger] head[i].guild_id
                == last.guild_id;
            assert(rows[i].guild_id != rows[rows.len() - 1].guild_id);
        }
        assert(!(rows[rows.len() - 1].state is Idle));
        lemma_by_guild_push(head, last);
        assert(head.push(last) =~= rows);
        assert(by_guild(rows).dom() =~= by_guild(head).dom().insert(last.guild_id));
    }
}

/// In valid rows a guild's sessions number one if the map holds the guild,
/// else none.
proof fn lemma_count_for(rows: Seq<VoiceSession>, guild_id: u64)
    requires
        rows_valid(rows),
    ensures
        count_for(rows, guild_id) == if by_guild(rows).contains_key(guild_id) {
            1nat
        } else {
            0nat
        },
    decreases rows.len(),
{
    if rows.len() > 0 {
        let head = rows.drop_last();
        let last = rows.last();
        assert forall|i: int, j: int| 0 <= i < j < head.len() implies #[trigger] head[i].guild_id
            != #[trigger] head[j].guild_id by {
            assert(rows[i].guild_id != rows[j].guild_id);
        }
        assert forall|i: int| 0 <= i < head.len() implies !(#[trigger] head[i].state is Idle) by {
            assert(!(rows[i].state is Idle));
        }
        lemma_count_for(head, guild_id);
        if by_guild(head).contains_key(guild_id) {
            let i = choose|i: int| 0 <= i < head.len() && #[trigger] head[i].guild_id == guild_id;
            assert(rows[i].guild_id == guild_id);
            assert(rows[i].guild_id != rows[rows.len() - 1].guild_id);
        } else if last.guild_id == guild_id {
            assert(rows[rows.len() - 1].guild_id == guild_id);
        } else if by_guild(rows).contains_key(guild_id) {
            let i = choose|i: int| 0 <= i < rows.len() && #[trigger] rows[i].guild_id == guild_id;
            assert(head[i].guild_id == guild_id);
        }
    }
}

/// A guild never has more than one session in the table: it has exactly one
/// where the table maps it, and none where it does not.
pub proof fn lemma_at_most_one_session(table: SessionTable, guild_id: u64)
    requires
        table.wf(),
    ensures
        table.census(guild_id) <= 1,
        table.census(guild_id) == 1 <==> table@.contains_key(guild_id),
        table@.contains_key(guild_id) ==> table.records().contains(table@[guild_id]),
{
    lemma_count_for(table.rows@, guild_id);
    if table@.contains_key(guild_id) {
        let i = choose|i: int|
            0 <= i < table.rows@.len() && #[trigger] table.rows@[i].guild_id == guild_id;
        lemma_by_guild_at(table.rows@, i);
        assert(table.rows@[i] == table@[guild_id]);
    }
}

/// A session in the table is never idle, and it is stored under its own guild.
pub proof fn lemma_sessions_are_live(table: SessionTable, guild_id: u64)
    requires
        table.wf(),
        table@.contains_key(guild_id),
    ensures
        table@[guild_id].guild_id == guild_id,
        !(table@[guild_id].state is Idle),
{
    let i = choose|i: int|
        0 <= i < table.rows@.len() && #[trigger] table.rows@[i].guild_id == guild_id;
    lemma_by_guild_at(table.rows@, i);
}

} // verus!
