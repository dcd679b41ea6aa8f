//! The events that the gateway delivers and the actions that the router
//! answers them with.

use vstd::prelude::*;

verus! {

/// One decoded event of the platform.
#[derive(Debug, PartialEq, Eq)]
pub enum Event {
    /// A text message in a channel.
    TextMessage { author: String, content: String, channel_id: u64 },
    /// A user has joined a guild.
    MembershipAdded { user_id: u64, display_name: String },
    /// A user has invoked a declared command; `responder` identifies the
    /// interaction that waits for its one response.
    Interaction { command_name: String, responder: u64 },
    /// The gateway connection is up, for the first time or again.
    Ready { bot_display_name: String },
}

/// `Event` with its texts as sequences of characters.
pub enum EventView {
    TextMessage { author: Seq<char>, content: Seq<char>, channel_id: u64 },
    MembershipAdded { user_id: u64, display_name: Seq<char> },
    Interaction { command_name: Seq<char>, responder: u64 },
    Ready { bot_display_name: Seq<char> },
}

impl View for Event {
    type V = EventView;

    open spec fn view(&self) -> EventView {
        match *self {
            Event::TextMessage { author, content, channel_id } => EventView::TextMessage {
                author: author@,
                content: content@,
                channel_id,
            },
            Event::MembershipAdded { user_id, display_name } => EventView::MembershipAdded {
                user_id,
                display_name: display_name@,
            },
            Event::Interaction { command_name, responder } => EventView::Interaction {
                command_name: command_name@,
                responder,
            },
            Event::Ready { bot_display_name } => EventView::Ready {
                bot_display_name: bot_display_name@,
            },
        }
    }
}

/// One record of the message log: who wrote what.
#[derive(Debug, PartialEq, Eq)]
pub struct MessageLogEntry {
    pub author: String,
    pub text: String,
}

/// `MessageLogEntry` with its texts as sequences of characters.
pub struct MessageLogEntryView {
    pub author: Seq<char>,
    pub text: Seq<char>,
}

impl View for MessageLogEntry {
    type V = MessageLogEntryView;

    open spec fn view(&self) -> MessageLogEntryView {
        MessageLogEntryView { author: self.author@, text: self.text@ }
    }
}

/// How many arguments a command takes.
#[derive(Clone, Copy, Debug, PartialEq, Eq, Structural)]
pub struct ArgSpec {
    pub min_args: usize,
    pub max_args: usize,
}

/// What is declared to the platform for one command.
#[derive(Debug, PartialEq, Eq)]
pub struct DeclareRequest {
    pub name: String,
    pub description: String,
    pub arg_spec: Option<ArgSpec>,
}

/// `DeclareRequest` with its texts as sequences of characters.
pub struct DeclareRequestView {
    pub name: Seq<char>,
    pub description: Seq<char>,
    pub arg_spec: Option<ArgSpec>,
}

impl View for DeclareRequest {
    type V = DeclareRequestView;

    open spec fn view(&self) -> DeclareRequestView {
        DeclareRequestView {
            name: self.name@,
            description: self.description@,
            arg_spec: self.arg_spec,
        }
    }
}

/// The platform takes no more options than this for one command.
pub const MAX_OPTIONS: usize = 25;

/// The options that are declared for a command with this argument schema,
/// one for each argument it may take, as far as the platform takes them:
/// `true` for an argument that it must be given.
pub open spec fn option_plan(arg_spec: Option<ArgSpec>) -> Seq<bool> {
    match arg_spec {
        None => Seq::empty(),
        Some(spec) => Seq::new(
            if spec.max_args <= MAX_OPTIONS {
                spec.max_args as nat
            } else {
                MAX_OPTIONS as nat
            },
            |i: int| i < spec.min_args,
        ),
    }
}

impl DeclareRequest {
    /// The options to declare for the command: see `option_plan`.
    pub fn options(&self) -> (required: Vec<bool>)
        ensures
            required@ == option_plan(self.arg_spec),
    {
        let mut required: Vec<bool> = Vec::new();
        match self.arg_spec {
            None => {},
            Some(spec) => {
                let count = if spec.max_args <= MAX_OPTIONS {
                    spec.max_args
                } else {
                    MAX_OPTIONS
                };
                let mut i: usize = 0;
                while i < count
                    invariant
                        i <= count,
                        required@.len() == i,
                        forall|k: int| 0 <= k < i ==> required@[k] == (k < spec.min_args),
                    decreases count - i,
                {
                    required.push(i < spec.min_args);
                    i = i + 1;
                }
            },
        }
        assert(required@ =~= option_plan(self.arg_spec));
        required
    }
}

/// The views of the requests, in order.
pub open spec fn request_views(requests: Seq<DeclareRequest>) -> Seq<DeclareRequestView> {
    Seq::new(requests.len(), |i: int| requests[i]@)
}

/// One thing that the caller of the router has to carry out.
#[derive(Debug, PartialEq, Eq)]
pub enum Action {
    /// Send `text` to a channel.
    Send { channel_id: u64, text: String },
    /// Send `text` to a user in private.
    SendDirect { user_id: u64, text: String },
    /// Answer the interaction `responder` with `text`.
    Respond { responder: u64, text: String },
    /// Append the entry to the message log.
    Append { entry: MessageLogEntry },
    /// Declare a command to the platform, then report with
    /// `declaration_finished`.
    Declare { request: DeclareRequest },
    /// Write `text` to the diagnostic output.
    Report { text: String },
    /// The author asks for a voice session: hand the request to the lifecycle
    /// manager with the author's guild and voice channel, and send its reply
    /// to `channel_id`.
    Join { channel_id: u64 },
    /// The author asks to end the voice session: hand the request to the
    /// lifecycle manager with the author's guild, and send its reply to
    /// `channel_id`.
    Leave { channel_id: u64 },
}

/// `Action` with its texts as sequences of characters.
pub enum ActionView {
    Send { channel_id: u64, text: Seq<char> },
    SendDirect { user_id: u64, text: Seq<char> },
    Respond { responder: u64, text: Seq<char> },
    Append { entry: MessageLogEntryView },
    Declare { request: DeclareRequestView },
    Report { text: Seq<char> },
    Join { channel_id: u64 },
    Leave { channel_id: u64 },
}

impl View for Action {
    type V = ActionView;

    open spec fn view(&self) -> ActionView {
        match *self {
            Action::Send { channel_id, text } => ActionView::Send { channel_id, text: text@ },
            Action::SendDirect { user_id, text } => ActionView::SendDirect {
                user_id,
                text: text@,
            },
            Action::Respond { responder, text } => ActionView::Respond { responder, text: text@ },
            Action::Append { entry } => ActionView::Append { entry: entry@ },
            Action::Declare { request } => ActionView::Declare { request: request@ },
            Action::Report { text } => ActionView::Report { text: text@ },
            Action::Join { channel_id } => ActionView::Join { channel_id },
            Action::Leave { channel_id } => ActionView::Leave { channel_id },
        }
    }
}

/// The views of a plan's actions, in order.
pub open spec fn plan_view(plan: Seq<Action>) -> Seq<ActionView> {
    Seq::new(plan.len(), |i: int| plan[i]@)
}

/// Whether the action answers a user: it sends a text, or it hands a voice
/// command on, which is answered with one reply.
pub open spec fn is_answer(action: ActionView) -> bool {
    action is Send || action is SendDirect || action is Respond || action is Join
        || action is Leave
}

/// Number of answers in a plan.
pub open spec fn answer_count(plan: Seq<ActionView>) -> nat
    decreases plan.len(),
{
    if plan.len() == 0 {
        0
    } else {
        answer_count(plan.drop_last()) + if is_answer(plan.last()) {
            1nat
        } else {
            0nat
        }
    }
}

/// The entries that a plan appends to the message log, in order.
pub open spec fn appended(plan: Seq<ActionView>) -> Seq<MessageLogEntryView>
    decreases plan.len(),
{
    if plan.len() == 0 {
        Seq::empty()
    } else {
        match plan.last() {
            ActionView::Append { entry } => appended(plan.drop_last()).push(entry),
            _ => appended(plan.drop_last()),
        }
    }
}

/// The commands that a plan declares to the platform, in order.
pub open spec fn declared(plan: Seq<ActionView>) -> Seq<DeclareRequestView>
    decreases plan.len(),
{
    if plan.len() == 0 {
        Seq::empty()
    } else {
        match plan.last() {
            ActionView::Declare { request } => declared(plan.drop_last()).push(request),
            _ => declared(plan.drop_last()),
        }
    }
}

} // verus!
