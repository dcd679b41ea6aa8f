//! The event router: one decoded event in, the plan of actions out.

use crate::event::{
    answer_count, appended, declared, is_answer, plan_view, request_views, Action, ActionView,
    DeclareRequestView, Event, EventView, MessageLogEntry, MessageLogEntryView,
};
use crate::phrases::{
    command_prefix, connected, connected_line, greeting, greeting_text, hi_text, ping_text, pong,
    pong_text, welcome, welcome_text,
};
use crate::registry::{
    accepts, all_pending, awaits, due_requests, finished_registry, invoke, invoke_text,
    not_implemented_text, resolve_spec, takes, CommandDescriptorView, CommandRegistry, Handler,
    Registered,
};
use crate::text::{chars_of, find_separator, same_text, separator_from, word_count};
use vstd::prelude::*;
use vstd::string::*;

verus! {

/// Whether `content` is a text command: it begins with the prefix.
pub open spec fn is_command(content: Seq<char>) -> bool {
    content.len() > 0 && content[0] == command_prefix()
}

/// The name in a text command: what stands between the prefix and the first
/// separator.
pub open spec fn command_name(content: Seq<char>) -> Seq<char> {
    content.subrange(1, separator_from(content, 1))
}

/// The arguments of a text command: what stands behind its name.
pub open spec fn command_args(content: Seq<char>) -> Seq<char> {
    content.subrange(separator_from(content, 1), content.len() as int)
}

/// What a known text command is answered with on `channel_id`: a voice
/// command that takes its arguments is handed on; every other command is
/// answered with the text that invoking it gives.
pub open spec fn command_action(
    descriptor: CommandDescriptorView,
    args: Seq<char>,
    channel_id: u64,
) -> ActionView {
    if descriptor.handler is Join && accepts(descriptor.arg_spec, word_count(args)) {
        ActionView::Join { channel_id }
    } else if descriptor.handler is Leave && accepts(descriptor.arg_spec, word_count(args)) {
        ActionView::Leave { channel_id }
    } else {
        ActionView::Send { channel_id, text: invoke_text(descriptor, args) }
    }
}

/// The answer to a text message: none, or one action.
pub open spec fn text_answer(
    registry: Seq<Registered>,
    author: Seq<char>,
    content: Seq<char>,
    channel_id: u64,
) -> Seq<ActionView> {
    if content == ping_text() {
        seq![ActionView::Send { channel_id, text: pong_text() }]
    } else if content == hi_text() {
        seq![ActionView::Send { channel_id, text: greeting_text(author) }]
    } else if is_command(content) {
        match resolve_spec(registry, command_name(content)) {
            Some(descriptor) => seq![
                command_action(descriptor, command_args(content), channel_id),
            ],
            None => Seq::empty(),
        }
    } else {
        Seq::empty()
    }
}

/// The text that answers an interaction: what invoking the named command
/// without arguments gives, or the fixed text where the name is unknown.
pub open spec fn interaction_text(registry: Seq<Registered>, command_name: Seq<char>) -> Seq<
    char,
> {
    match resolve_spec(registry, command_name) {
        Some(descriptor) => invoke_text(descriptor, Seq::empty()),
        None => not_implemented_text(),
    }
}

/// One `Declare` action for each request, in order.
pub open spec fn declare_actions(requests: Seq<DeclareRequestView>) -> Seq<ActionView> {
    Seq::new(requests.len(), |i: int| ActionView::Declare { request: requests[i] })
}

/// The plan that answers `event` for a router whose registry is `registry`.
pub open spec fn route_plan(registry: Seq<Registered>, event: EventView) -> Seq<ActionView> {
    match event {
        EventView::TextMessage { author, content, channel_id } => text_answer(
            registry,
            author,
            content,
            channel_id,
        ).push(ActionView::Append { entry: MessageLogEntryView { author, text: content } }),
        EventView::MembershipAdded { user_id, display_name } => seq![
            ActionView::SendDirect { user_id, text: welcome_text(display_name) },
        ],
        EventView::Interaction { command_name, responder } => seq![
            ActionView::Respond { responder, text: interaction_text(registry, command_name) },
        ],
        EventView::Ready { bot_display_name } => seq![
            ActionView::Report { text: connected_line(bot_display_name) },
        ] + declare_actions(due_requests(registry)),
    }
}

/// The registry after `event`: `Ready` makes every undeclared command
/// pending; no other event touches it.
pub open spec fn route_registry(registry: Seq<Registered>, event: EventView) -> Seq<Registered> {
    match event {
        EventView::Ready { .. } => all_pending(registry),
        _ => registry,
    }
}

/// Routes events. Its only state is the command registry.
pub struct Router {
    registry: CommandRegistry,
}

impl View for Router {
    type V = Seq<Registered>;

    closed spec fn view(&self) -> Seq<Registered> {
        self.registry@
    }
}

impl Router {
    /// A router over `registry`.
    pub fn new(registry: CommandRegistry) -> (router: Self)
        ensures
            router@ == registry@,
    {
        Router { registry }
    }

    /// The command registry, to read.
    pub fn registry(&self) -> (registry: &CommandRegistry)
        ensures
            registry@ == self@,
    {
        &self.registry
    }

    fn answer_command(&self, content: &String, chars: &Vec<char>, channel_id: u64) -> (answer:
        Option<Action>)
        requires
            chars@ == content@,
            is_command(content@),
        ensures
            match answer {
                Some(action) => resolve_spec(self@, command_name(content@)) matches Some(
                    descriptor,
                ) && action@ == command_action(descriptor, command_args(content@), channel_id),
                None => resolve_spec(self@, command_name(content@)) is None,
            },
    {
        let end = find_separator(chars, 1);
        let name = content.as_str().substring_char(1, end);
        let args = content.as_str().substring_char(end, chars.len());
        match self.registry.resolve(name) {
            None => None,
            Some(descriptor) => {
                let action = match &descriptor.handler {
                    Handler::Join if takes(&descriptor.arg_spec, args) => Action::Join {
                        channel_id,
                    },
                    Handler::Leave if takes(&descriptor.arg_spec, args) => Action::Leave {
                        channel_id,
                    },
                    _ => Action::Send { channel_id, text: invoke(descriptor, args) },
                };
                Some(action)
            },
        }
    }

    /// Answers one event with the plan of what is to be done for it, in the
    /// order in which it is to be done.
    ///
    /// A text message is answered at most once, by its content: `!ping`,
    /// `!hi`, or a command behind the prefix that the registry knows; after
    /// the answer, and whether or not there was one, it is appended to the
    /// message log. A new member is welcomed in private. An interaction gets
    /// exactly one response. `Ready` is reported, and every command that is
    /// not yet declared or being declared is declared to the platform.
    pub fn route(&mut self, event: Event) -> (plan: Vec<Action>)
        ensures
            plan_view(plan@) == route_plan(old(self)@, event@),
            plan@.len() == route_plan(old(self)@, event@).len(),
            final(self)@ == route_registry(old(self)@, event@),
    {
        let mut plan: Vec<Action> = Vec::new();
        match event {
            Event::TextMessage { author, content, channel_id } => {
                if same_text(content.as_str(), "!ping") {
                    plan.push(Action::Send { channel_id, text: pong() });
                } else if same_text(content.as_str(), "!hi") {
                    plan.push(Action::Send { channel_id, text: greeting(author.as_str()) });
                } else {
                    let chars = chars_of(content.as_str());
                    if chars.len() > 0 && chars[0] == '/' {
                        match self.answer_command(&content, &chars, channel_id) {
                            Some(action) => {
                                plan.push(action);
                            },
                            None => {},
                        }
                    }
                }
                let ghost answer = plan_view(plan@);
                assert(answer =~= text_answer(old(self)@, author@, content@, channel_id));
                plan.push(Action::Append { entry: MessageLogEntry { author, text: content } });
                assert(plan_view(plan@) =~= answer.push(plan@[plan@.len() - 1]@));
            },
            Event::MembershipAdded { user_id, display_name } => {
                plan.push(Action::SendDirect { user_id, text: welcome(display_name.as_str()) });
                assert(plan_view(plan@) =~= route_plan(old(self)@, event@));
            },
            Event::Interaction { command_name, responder } => {
                let text = match self.registry.resolve(command_name.as_str()) {
                    Some(descriptor) => {
                        proof {
                            assert(""@ =~= Seq::<char>::empty()) by {
                                reveal_strlit("");
                            }
                        }
                        invoke(descriptor, "")
                    },
                    None => String::from_str("not implemented :("),
                };
                plan.push(Action::Respond { responder, text });
                assert(plan_view(plan@) =~= route_plan(old(self)@, event@));
            },
            Event::Ready { bot_display_name } => {
                plan.push(Action::Report { text: connected(bot_display_name.as_str()) });
                let requests = self.registry.declare_all();
                let ghost due = due_requests(old(self)@);
                let ghost report = plan_view(plan@);
                assert(report =~= seq![
                    ActionView::Report { text: connected_line(bot_display_name@) },
                ]);
                for request in it: requests
                    invariant
                        request_views(it.seq()) == due,
                        plan_view(plan@) == report + declare_actions(due.take(it.index())),
                {
                    let ghost before = plan_view(plan@);
                    assert(request@ == due[it.index()]);
                    plan.push(Action::Declare { request });
                    assert(plan_view(plan@) =~= before.push(
                        ActionView::Declare { request: due[it.index()] },
                    ));
                    assert(declare_actions(due.take(it.index() + 1)) =~= declare_actions(
                        due.take(it.index()),
                    ).push(ActionView::Declare { request: due[it.index()] }));
                }
                assert(due.take(due.len() as int) =~= due);
            },
        }
        assert(plan_view(plan@).len() == plan@.len());
        plan
    }

    /// Records the platform's answer to a `Declare` action: see
    /// `CommandRegistry::declaration_finished`.
    pub fn declaration_finished(&mut self, name: &str, outcome: Option<u64>) -> (awaited: bool)
        ensures
            awaited == awaits(old(self)@, name@),
            final(self)@ == finished_registry(old(self)@, name@, outcome),
    {
        self.registry.declaration_finished(name, outcome)
    }
}

/// Every text message is appended to the message log exactly once, as its
/// author and content, whatever it was answered with.
pub proof fn lemma_text_message_logged_once(
    registry: Seq<Registered>,
    author: Seq<char>,
    content: Seq<char>,
    channel_id: u64,
)
    ensures
        appended(route_plan(registry, EventView::TextMessage { author, content, channel_id }))
            == seq![MessageLogEntryView { author, text: content }],
        route_plan(registry, EventView::TextMessage { author, content, channel_id }).last()
            == (ActionView::Append { entry: MessageLogEntryView { author, text: content } }),
{
    let answer = text_answer(registry, author, content, channel_id);
    let entry = MessageLogEntryView { author, text: content };
    let plan = route_plan(registry, EventView::TextMessage { author, content, channel_id });
    assert(plan.drop_last() =~= answer);
    lemma_answer_appends_nothing(registry, author, content, channel_id);
    assert(Seq::<MessageLogEntryView>::empty().push(entry) =~= seq![entry]);
}

/// What a plan of one action answers, appends and declares.
proof fn lemma_single_action(action: ActionView)
    ensures
        answer_count(seq![action]) == if is_answer(action) {
            1nat
        } else {
            0nat
        },
        appended(seq![action]) == match action {
            ActionView::Append { entry } => seq![entry],
            _ => Seq::empty(),
        },
        declared(seq![action]) == match action {
            ActionView::Declare { request } => seq![request],
            _ => Seq::empty(),
        },
{
    reveal_with_fuel(answer_count, 2);
    reveal_with_fuel(appended, 2);
    reveal_with_fuel(declared, 2);
    let plan = seq![action];
    assert(plan.drop_last().len() == 0);
    assert(plan.last() == action);
    match action {
        ActionView::Append { entry } => {
            assert(Seq::<MessageLogEntryView>::empty().push(entry) =~= seq![entry]);
        },
        ActionView::Declare { request } => {
            assert(Seq::<DeclareRequestView>::empty().push(request) =~= seq![request]);
        },
        _ => {},
    }
}

/// The answer to a text message holds no append, and at most one action.
proof fn lemma_answer_appends_nothing(
    registry: Seq<Registered>,
    author: Seq<char>,
    content: Seq<char>,
    channel_id: u64,
)
    ensures
        appended(text_answer(registry, author, content, channel_id)) == Seq::<
            MessageLogEntryView,
        >::empty(),
        answer_count(text_answer(registry, author, content, channel_id)) == text_answer(
            registry,
            author,
            content,
            channel_id,
        ).len(),
        text_answer(registry, author, content, channel_id).len() <= 1,
{
    let answer = text_answer(registry, author, content, channel_id);
    if answer.len() > 0 {
        assert(answer =~= seq![answer[0]]);
        lemma_single_action(answer[0]);
    }
}

/// Only a text message is appended to the message log.
pub proof fn lemma_other_events_not_logged(registry: Seq<Registered>, event: EventView)
    requires
        !(event is TextMessage),
    ensures
        appended(route_plan(registry, event)) == Seq::<MessageLogEntryView>::empty(),
{
    let plan = route_plan(registry, event);
    match event {
        EventView::Ready { bot_display_name } => {
            lemma_declare_actions(due_requests(registry));
            let report = seq![ActionView::Report { text: connected_line(bot_display_name) }];
            lemma_appended_concat(report, declare_actions(due_requests(registry)));
            lemma_single_action(report[0]);
            assert(appended(report) + appended(declare_actions(due_requests(registry)))
                =~= Seq::<MessageLogEntryView>::empty());
        },
        _ => {
            assert(plan =~= seq![plan[0]]);
            lemma_single_action(plan[0]);
        },
    }
}

/// An interaction is answered exactly once: the plan is its one response,
/// also where the command is unknown.
pub proof fn lemma_interaction_answered_once(
    registry: Seq<Registered>,
    command_name: Seq<char>,
    responder: u64,
)
    ensures
        ({
            let plan = route_plan(registry, EventView::Interaction { command_name, responder });
            &&& plan.len() == 1
            &&& plan[0] matches ActionView::Respond { responder: to, .. } && to == responder
            &&& answer_count(plan) == 1
            &&& resolve_spec(registry, command_name) is None ==> plan[0] == (ActionView::Respond {
                responder,
                text: not_implemented_text(),
            })
        }),
{
    let plan = route_plan(registry, EventView::Interaction { command_name, responder });
    assert(plan =~= seq![plan[0]]);
    lemma_single_action(plan[0]);
}

/// No event is answered more than once; a new member and an interaction are
/// answered exactly once, and `Ready` is not answered.
pub proof fn lemma_at_most_one_answer(registry: Seq<Registered>, event: EventView)
    ensures
        answer_count(route_plan(registry, event)) <= 1,
        event is MembershipAdded || event is Interaction ==> answer_count(
            route_plan(registry, event),
        ) == 1,
        event is Ready ==> answer_count(route_plan(registry, event)) == 0,
{
    let plan = route_plan(registry, event);
    match event {
        EventView::TextMessage { author, content, channel_id } => {
            assert(plan.drop_last() =~= text_answer(registry, author, content, channel_id));
            lemma_answer_appends_nothing(registry, author, content, channel_id);
        },
        EventView::Ready { bot_display_name } => {
            lemma_declare_actions(due_requests(registry));
            let report = seq![ActionView::Report { text: connected_line(bot_display_name) }];
            lemma_answers_concat(report, declare_actions(due_requests(registry)));
            lemma_single_action(report[0]);
        },
        _ => {
            assert(plan =~= seq![plan[0]]);
            lemma_single_action(plan[0]);
        },
    }
}

/// `Ready` declares the commands that are due, in the registry's order, and
/// leaves none due: the next `Ready` declares nothing, whatever name the bot
/// bears then.
pub proof fn lemma_ready_declares_once(
    registry: Seq<Registered>,
    first_name: Seq<char>,
    second_name: Seq<char>,
)
    ensures
        ({
            let first = EventView::Ready { bot_display_name: first_name };
            let second = EventView::Ready { bot_display_name: second_name };
            &&& declared(route_plan(registry, first)) == due_requests(registry)
            &&& declared(route_plan(route_registry(registry, first), second)) == Seq::<
                DeclareRequestView,
            >::empty()
            &&& route_registry(route_registry(registry, first), second) == route_registry(
                registry,
                first,
            )
        }),
{
    let first = EventView::Ready { bot_display_name: first_name };
    let second = EventView::Ready { bot_display_name: second_name };
    let after = all_pending(registry);
    lemma_none_due(after, after.len() as int);
    assert(after.take(after.len() as int) =~= after);
    assert(all_pending(after) =~= after);
    lemma_ready_declarations(registry, first_name);
    lemma_ready_declarations(after, second_name);
}

/// What a plan for `Ready` declares is what was due.
proof fn lemma_ready_declarations(registry: Seq<Registered>, bot_display_name: Seq<char>)
    ensures
        declared(route_plan(registry, EventView::Ready { bot_display_name })) == due_requests(
            registry,
        ),
{
    let report = seq![ActionView::Report { text: connected_line(bot_display_name) }];
    let due = due_requests(registry);
    lemma_declare_actions(due);
    lemma_declared_concat(report, declare_actions(due));
    lemma_single_action(report[0]);
    assert(Seq::<DeclareRequestView>::empty() + due =~= due);
}

/// Nothing is due among entries of which none is undeclared.
proof fn lemma_none_due(entries: Seq<Registered>, n: int)
    requires
        0 <= n <= entries.len(),
        forall|i: int| 0 <= i < entries.len() ==> !((#[trigger] entries[i]).declaration
            is Undeclared),
    ensures
        due_requests(entries.take(n)) == Seq::<DeclareRequestView>::empty(),
    decreases n,
{
    if n > 0 {
        lemma_none_due(entries, n - 1);
        assert(entries.take(n).drop_last() =~= entries.take(n - 1));
    }
}

/// A run of `Declare` actions declares its requests, appends nothing and
/// answers nobody.
proof fn lemma_declare_actions(requests: Seq<DeclareRequestView>)
    ensures
        declared(declare_actions(requests)) == requests,
        appended(declare_actions(requests)) == Seq::<MessageLogEntryView>::empty(),
        answer_count(declare_actions(requests)) == 0,
    decreases requests.len(),
{
    if requests.len() > 0 {
        lemma_declare_actions(requests.drop_last());
        assert(declare_actions(requests).drop_last() =~= declare_actions(requests.drop_last()));
        assert(requests.drop_last().push(requests.last()) =~= requests);
    } else {
        assert(requests =~= Seq::<DeclareRequestView>::empty());
    }
}

proof fn lemma_declared_concat(a: Seq<ActionView>, b: Seq<ActionView>)
    ensures
        declared(a + b) == declared(a) + declared(b),
    decreases b.len(),
{
    if b.len() == 0 {
        assert(a + b =~= a);
        assert(declared(a) + declared(b) =~= declared(a));
    } else {
        lemma_declared_concat(a, b.drop_last());
        assert((a + b).drop_last() =~= a + b.drop_last());
        assert(declared(a + b) =~= declared(a) + declared(b));
    }
}

proof fn lemma_appended_concat(a: Seq<ActionView>, b: Seq<ActionView>)
    ensures
        appended(a + b) == appended(a) + appended(b),
    decreases b.len(),
{
    if b.len() == 0 {
        assert(a + b =~= a);
        assert(appended(a) + appended(b) =~= appended(a));
    } else {
        lemma_appended_concat(a, b.drop_last());
        assert((a + b).drop_last() =~= a + b.drop_last());
        assert(appended(a + b) =~= appended(a) + appended(b));
    }
}

proof fn lemma_answers_concat(a: Seq<ActionView>, b: Seq<ActionView>)
    ensures
        answer_count(a + b) == answer_count(a) + answer_count(b),
    decreases b.len(),
{
    if b.len() == 0 {
        assert(a + b =~= a);
    } else {
        lemma_answers_concat(a, b.drop_last());
        assert((a + b).drop_last() =~= a + b.drop_last());
    }
}

} // verus!
