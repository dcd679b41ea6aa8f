//! The command registry: the commands that the bot knows, by name, and what
//! has been declared of each to the platform.

use crate::event::{request_views, ArgSpec, DeclareRequest, DeclareRequestView};
use crate::text::{chars_of, count_words, word_count};
use vstd::prelude::*;
use vstd::string::*;

verus! {

/// What a command does when it is invoked.
#[derive(Debug, PartialEq, Eq)]
pub enum Handler {
    /// Answers with a fixed text.
    Reply { text: String },
    /// Asks for a voice session in the author's voice channel.
    Join,
    /// Asks to end the guild's voice session.
    Leave,
}

/// `Handler` with its text as a sequence of characters.
pub enum HandlerView {
    Reply { text: Seq<char> },
    Join,
    Leave,
}

impl View for Handler {
    type V = HandlerView;

    open spec fn view(&self) -> HandlerView {
        match *self {
            Handler::Reply { text } => HandlerView::Reply { text: text@ },
            Handler::Join => HandlerView::Join,
            Handler::Leave => HandlerView::Leave,
        }
    }
}

/// One command: its name, what the platform is told of it, the arguments it
/// takes, and what it does.
#[derive(Debug, PartialEq, Eq)]
pub struct CommandDescriptor {
    pub name: String,
    pub description: String,
    pub arg_spec: Option<ArgSpec>,
    pub handler: Handler,
}

/// `CommandDescriptor` with its texts as sequences of characters.
pub struct CommandDescriptorView {
    pub name: Seq<char>,
    pub description: Seq<char>,
    pub arg_spec: Option<ArgSpec>,
    pub handler: HandlerView,
}

impl View for CommandDescriptor {
    type V = CommandDescriptorView;

    open spec fn view(&self) -> CommandDescriptorView {
        CommandDescriptorView {
            name: self.name@,
            description: self.description@,
            arg_spec: self.arg_spec,
            handler: self.handler@,
        }
    }
}

/// What the platform knows of a command in this run.
#[derive(Clone, Copy, Debug, PartialEq, Eq, Structural)]
pub enum Declaration {
    /// Not declared, or the last declaration failed.
    Undeclared,
    /// A declaration has been asked for and its answer is awaited.
    Pending,
    /// The platform has confirmed the declaration under `remote_id`.
    Confirmed { remote_id: u64 },
}

/// What `declare_remote` asks of its caller.
#[derive(Debug, PartialEq, Eq)]
pub enum DeclareStep {
    /// Declare the command to the platform, then report with
    /// `declaration_finished`.
    Call { request: DeclareRequest },
    /// A declaration of the command is under way: nothing to do.
    InFlight,
    /// The platform has confirmed the command before: nothing to do.
    Cached { remote_id: u64 },
    /// The registry has no command of that name.
    Unknown,
}

/// `DeclareStep` with its request as a view.
pub enum DeclareStepView {
    Call { request: DeclareRequestView },
    InFlight,
    Cached { remote_id: u64 },
    Unknown,
}

impl View for DeclareStep {
    type V = DeclareStepView;

    open spec fn view(&self) -> DeclareStepView {
        match *self {
            DeclareStep::Call { request } => DeclareStepView::Call { request: request@ },
            DeclareStep::InFlight => DeclareStepView::InFlight,
            DeclareStep::Cached { remote_id } => DeclareStepView::Cached { remote_id },
            DeclareStep::Unknown => DeclareStepView::Unknown,
        }
    }
}

/// Why `CommandRegistry::register` refused a command.
#[derive(Clone, Copy, Debug, PartialEq, Eq, Structural)]
pub enum RegistryError {
    /// The registry already holds a command of that name.
    DuplicateName,
}

/// One entry of the registry, as specifications see it.
pub struct Registered {
    pub descriptor: CommandDescriptorView,
    pub declaration: Declaration,
}

struct Entry {
    descriptor: CommandDescriptor,
    declaration: Declaration,
}

/// The text that answers a command which cannot be served.
pub open spec fn not_implemented_text() -> Seq<char> {
    "not implemented :("@
}

/// Whether a command with this argument schema takes `count` arguments.
pub open spec fn accepts(arg_spec: Option<ArgSpec>, count: nat) -> bool {
    match arg_spec {
        None => true,
        Some(spec) => spec.min_args <= count <= spec.max_args,
    }
}

/// The text that invoking `descriptor` on `args` gives: the handler's reply
/// where it has one and takes that many arguments, else the fixed text for a
/// command that cannot be served.
pub open spec fn invoke_text(descriptor: CommandDescriptorView, args: Seq<char>) -> Seq<char> {
    match descriptor.handler {
        HandlerView::Reply { text } => if accepts(descriptor.arg_spec, word_count(args)) {
            text
        } else {
            not_implemented_text()
        },
        _ => not_implemented_text(),
    }
}

/// The first entry of `entries` that is named `name`.
pub open spec fn lookup(entries: Seq<Registered>, name: Seq<char>) -> Option<Registered>
    decreases entries.len(),
{
    if entries.len() == 0 {
        None
    } else if entries[0].descriptor.name == name {
        Some(entries[0])
    } else {
        lookup(entries.drop_first(), name)
    }
}

/// The descriptor of the command named `name`, if `entries` has one.
pub open spec fn resolve_spec(entries: Seq<Registered>, name: Seq<char>) -> Option<
    CommandDescriptorView,
> {
    match lookup(entries, name) {
        Some(entry) => Some(entry.descriptor),
        None => None,
    }
}

/// `entries` with the declaration of every command named `name` set to
/// `declaration`.
pub open spec fn with_declaration(
    entries: Seq<Registered>,
    name: Seq<char>,
    declaration: Declaration,
) -> Seq<Registered> {
    Seq::new(
        entries.len(),
        |i: int|
            if entries[i].descriptor.name == name {
                Registered { descriptor: entries[i].descriptor, declaration }
            } else {
                entries[i]
            },
    )
}

/// What is declared to the platform for a command.
pub open spec fn request_for(descriptor: CommandDescriptorView) -> DeclareRequestView {
    DeclareRequestView {
        name: descriptor.name,
        description: descriptor.description,
        arg_spec: descriptor.arg_spec,
    }
}

/// What `declare_remote` asks of its caller.
pub open spec fn declare_step(entries: Seq<Registered>, name: Seq<char>) -> DeclareStepView {
    match lookup(entries, name) {
        None => DeclareStepView::Unknown,
        Some(entry) => match entry.declaration {
            Declaration::Undeclared => DeclareStepView::Call {
                request: request_for(entry.descriptor),
            },
            Declaration::Pending => DeclareStepView::InFlight,
            Declaration::Confirmed { remote_id } => DeclareStepView::Cached { remote_id },
        },
    }
}

/// The registry after `declare_remote`.
pub open spec fn declare_registry(entries: Seq<Registered>, name: Seq<char>) -> Seq<Registered> {
    match lookup(entries, name) {
        Some(entry) if entry.declaration is Undeclared => with_declaration(
            entries,
            name,
            Declaration::Pending,
        ),
        _ => entries,
    }
}

/// The declaration that the platform's answer leaves: confirmed under the
/// identifier it gave, or undeclared again.
pub open spec fn settled(outcome: Option<u64>) -> Declaration {
    match outcome {
        Some(remote_id) => Declaration::Confirmed { remote_id },
        None => Declaration::Undeclared,
    }
}

/// Whether the platform's answer for `name` is awaited.
pub open spec fn awaits(entries: Seq<Registered>, name: Seq<char>) -> bool {
    lookup(entries, name) matches Some(entry) && entry.declaration is Pending
}

/// The registry after `declaration_finished`.
pub open spec fn finished_registry(
    entries: Seq<Registered>,
    name: Seq<char>,
    outcome: Option<u64>,
) -> Seq<Registered> {
    if awaits(entries, name) {
        with_declaration(entries, name, settled(outcome))
    } else {
        entries
    }
}

/// The requests that `declare_all` hands out: one for each undeclared
/// command, in the registry's order.
pub open spec fn due_requests(entries: Seq<Registered>) -> Seq<DeclareRequestView>
    decreases entries.len(),
{
    if entries.len() == 0 {
        Seq::empty()
    } else if entries.last().declaration is Undeclared {
        due_requests(entries.drop_last()).push(request_for(entries.last().descriptor))
    } else {
        due_requests(entries.drop_last())
    }
}

/// `entries` with every undeclared command pending.
pub open spec fn all_pending(entries: Seq<Registered>) -> Seq<Registered> {
    Seq::new(
        entries.len(),
        |i: int|
            if entries[i].declaration is Undeclared {
                Registered { descriptor: entries[i].descriptor, declaration: Declaration::Pending }
            } else {
                entries[i]
            },
    )
}

/// No two entries bear one name.
pub open spec fn names_distinct(entries: Seq<Registered>) -> bool {
    forall|i: int, j: int|
        0 <= i < j < entries.len() ==> (#[trigger] entries[i]).descriptor.name != (
        #[trigger] entries[j]).descriptor.name
}

spec fn entries_view(entries: Seq<Entry>) -> Seq<Registered> {
    Seq::new(
        entries.len(),
        |i: int| Registered { descriptor: entries[i].descriptor@, declaration: entries[i].declaration },
    )
}

/// Takes the reply of a command that serves `args`, or the fixed text for one
/// that cannot.
pub fn invoke(descriptor: &CommandDescriptor, args: &str) -> (text: String)
    ensures
        text@ == invoke_text(descriptor@, args@),
{
    match &descriptor.handler {
        Handler::Reply { text } => {
            if takes(&descriptor.arg_spec, args) {
                text.clone()
            } else {
                String::from_str("not implemented :(")
            }
        },
        _ => String::from_str("not implemented :("),
    }
}

/// Whether a command with this argument schema takes the arguments in `args`.
pub fn takes(arg_spec: &Option<ArgSpec>, args: &str) -> (ok: bool)
    ensures
        ok == accepts(*arg_spec, word_count(args@)),
{
    match arg_spec {
        None => true,
        Some(spec) => {
            let chars = chars_of(args);
            let count = count_words(&chars);
            spec.min_args <= count && count <= spec.max_args
        },
    }
}

fn request_of(descriptor: &CommandDescriptor) -> (request: DeclareRequest)
    ensures
        request@ == request_for(descriptor@),
{
    DeclareRequest {
        name: descriptor.name.clone(),
        description: descriptor.description.clone(),
        arg_spec: descriptor.arg_spec,
    }
}

/// The commands of the bot, each name once, with what has been declared of
/// each.
pub struct CommandRegistry {
    entries: Vec<Entry>,
}

impl View for CommandRegistry {
    type V = Seq<Registered>;

    closed spec fn view(&self) -> Seq<Registered> {
        entries_view(self.entries@)
    }
}

impl CommandRegistry {
    /// What holds of every registry: no two commands bear one name.
    #[verifier::type_invariant]
    pub closed spec fn wf(&self) -> bool {
        names_distinct(entries_view(self.entries@))
    }

    /// A registry without commands.
    pub fn new() -> (registry: Self)
        ensures
            registry@ == Seq::<Registered>::empty(),
    {
        let registry = CommandRegistry { entries: Vec::new() };
        assert(registry@ =~= Seq::<Registered>::empty());
        registry
    }

    /// Number of commands.
    pub fn len(&self) -> (n: usize)
        ensures
            n == self@.len(),
    {
        self.entries.len()
    }

    fn position(&self, name: &str) -> (at: Option<usize>)
        ensures
            match at {
                Some(i) => i < self@.len() && self@[i as int].descriptor.name == name@ && lookup(
                    self@,
                    name@,
                ) == Some(self@[i as int]),
                None => lookup(self@, name@) is None,
            },
    {
        let wanted = String::from_str(name);
        let mut i: usize = 0;
        assert(self@.skip(0) =~= self@);
        while i < self.entries.len()
            invariant
                i <= self.entries@.len(),
                wanted@ == name@,
                lookup(self@, name@) == lookup(self@.skip(i as int), name@),
            decreases self.entries@.len() - i,
        {
            assert(self@.skip(i as int)[0] == self@[i as int]);
            if self.entries[i].descriptor.name == wanted {
                return Some(i);
            }
            assert(self@.skip(i as int).drop_first() =~= self@.skip(i as int + 1));
            i = i + 1;
        }
        assert(self@.skip(i as int).len() == 0);
        None
    }

    /// The descriptor of the command named `name`.
    pub fn resolve(&self, name: &str) -> (found: Option<&CommandDescriptor>)
        ensures
            match found {
                Some(descriptor) => resolve_spec(self@, name@) == Some(descriptor@),
                None => resolve_spec(self@, name@) is None,
            },
    {
        match self.position(name) {
            Some(i) => Some(&self.entries[i].descriptor),
            None => None,
        }
    }

    /// What has been declared of the command named `name`.
    pub fn declaration_of(&self, name: &str) -> (found: Option<Declaration>)
        ensures
            found == match lookup(self@, name@) {
                Some(entry) => Some(entry.declaration),
                None => None,
            },
    {
        match self.position(name) {
            Some(i) => Some(self.entries[i].declaration),
            None => None,
        }
    }

    /// Adds a command, undeclared, behind the others. Fails, and changes
    /// nothing, if the registry holds a command of that name.
    pub fn register(&mut self, descriptor: CommandDescriptor) -> (done: Result<(), RegistryError>)
        ensures
            done is Err <==> lookup(old(self)@, descriptor.name@) is Some,
            done is Err ==> final(self)@ == old(self)@,
            done is Ok ==> final(self)@ == old(self)@.push(
                Registered { descriptor: descriptor@, declaration: Declaration::Undeclared },
            ),
    {
        proof {
            use_type_invariant(&*self);
        }
        if self.position(descriptor.name.as_str()).is_some() {
            return Err(RegistryError::DuplicateName);
        }
        let ghost added = Registered {
            descriptor: descriptor@,
            declaration: Declaration::Undeclared,
        };
        let mut entries: Vec<Entry> = Vec::new();
        std::mem::swap(&mut entries, &mut self.entries);
        entries.push(Entry { descriptor, declaration: Declaration::Undeclared });
        proof {
            let before = old(self)@;
            let after = entries_view(entries@);
            assert(after =~= before.push(added));
            assert forall|i: int, j: int| 0 <= i < j < after.len() implies (
            #[trigger] after[i]).descriptor.name != (#[trigger] after[j]).descriptor.name by {
                if j == before.len() {
                    lemma_lookup_none(before, added.descriptor.name, i);
                } else {
                    assert(before[i].descriptor.name != before[j].descriptor.name);
                }
            }
        }
        self.entries = entries;
        Ok(())
    }

    fn set_declaration(&mut self, at: usize, declaration: Declaration)
        requires
            at < old(self)@.len(),
        ensures
            final(self)@ == with_declaration(
                old(self)@,
                old(self)@[at as int].descriptor.name,
                declaration,
            ),
            final(self)@ == old(self)@.update(
                at as int,
                Registered { descriptor: old(self)@[at as int].descriptor, declaration },
            ),
    {
        proof {
            use_type_invariant(&*self);
        }
        let mut entries: Vec<Entry> = Vec::new();
        std::mem::swap(&mut entries, &mut self.entries);
        entries[at].declaration = declaration;
        proof {
            let before = old(self)@;
            let after = entries_view(entries@);
            let name = before[at as int].descriptor.name;
            assert(after =~= before.update(
                at as int,
                Registered { descriptor: before[at as int].descriptor, declaration },
            ));
            assert forall|i: int| 0 <= i < before.len() implies #[trigger] after[i]
                == with_declaration(before, name, declaration)[i] by {
                if i < at {
                    assert(before[i].descriptor.name != before[at as int].descriptor.name);
                } else if at < i {
                    assert(before[at as int].descriptor.name != before[i].descriptor.name);
                }
            }
            assert(after =~= with_declaration(before, name, declaration));
            assert forall|i: int, j: int| 0 <= i < j < after.len() implies (
            #[trigger] after[i]).descriptor.name != (#[trigger] after[j]).descriptor.name by {
                assert(before[i].descriptor.name != before[j].descriptor.name);
            }
        }
        self.entries = entries;
    }

    /// Decides whether the command named `name` is to be declared to the
    /// platform now. An undeclared command becomes pending and the caller
    /// gets the request to send; for a pending or confirmed command nothing
    /// is sent again.
    pub fn declare_remote(&mut self, name: &str) -> (step: DeclareStep)
        ensures
            step@ == declare_step(old(self)@, name@),
            final(self)@ == declare_registry(old(self)@, name@),
    {
        match self.position(name) {
            None => DeclareStep::Unknown,
            Some(i) => match self.entries[i].declaration {
                Declaration::Undeclared => {
                    let request = request_of(&self.entries[i].descriptor);
                    self.set_declaration(i, Declaration::Pending);
                    DeclareStep::Call { request }
                },
                Declaration::Pending => DeclareStep::InFlight,
                Declaration::Confirmed { remote_id } => DeclareStep::Cached { remote_id },
            },
        }
    }

    /// Records the platform's answer to the declaration of `name`: the
    /// identifier it confirmed the command under, or `None` where it failed.
    /// A pending command becomes confirmed, or undeclared again. Returns
    /// whether an answer for `name` was awaited; if not, nothing changes.
    pub fn declaration_finished(&mut self, name: &str, outcome: Option<u64>) -> (awaited: bool)
        ensures
            awaited == awaits(old(self)@, name@),
            final(self)@ == finished_registry(old(self)@, name@, outcome),
    {
        match self.position(name) {
            None => false,
            Some(i) => match self.entries[i].declaration {
                Declaration::Pending => {
                    let declaration = match outcome {
                        Some(remote_id) => Declaration::Confirmed { remote_id },
                        None => Declaration::Undeclared,
                    };
                    self.set_declaration(i, declaration);
                    true
                },
                _ => false,
            },
        }
    }

    /// Hands out the request for every undeclared command, in the registry's
    /// order, and makes each of them pending.
    pub fn declare_all(&mut self) -> (requests: Vec<DeclareRequest>)
        ensures
            request_views(requests@) == due_requests(old(self)@),
            final(self)@ == all_pending(old(self)@),
    {
        let mut requests: Vec<DeclareRequest> = Vec::new();
        let mut i: usize = 0;
        let n = self.entries.len();
        while i < n
            invariant
                n == old(self)@.len(),
                self@.len() == n,
                i <= n,
                request_views(requests@) == due_requests(old(self)@.take(i as int)),
                forall|k: int| 0 <= k < i ==> #[trigger] self@[k] == all_pending(old(self)@)[k],
                forall|k: int| i <= k < n ==> #[trigger] self@[k] == old(self)@[k],
            decreases n - i,
        {
            assert(old(self)@.take(i as int + 1).drop_last() =~= old(self)@.take(i as int));
            assert(old(self)@.take(i as int + 1).last() == old(self)@[i as int]);
            assert(self@[i as int].declaration == self.entries@[i as int].declaration);
            match self.entries[i].declaration {
                Declaration::Undeclared => {
                    let request = request_of(&self.entries[i].descriptor);
                    self.set_declaration(i, Declaration::Pending);
                    let ghost before = requests@;
                    requests.push(request);
                    assert(request_views(requests@) =~= request_views(before).push(request@));
                },
                _ => {},
            }
            i = i + 1;
        }
        assert(old(self)@.take(n as int) =~= old(self)@);
        assert(self@ =~= all_pending(old(self)@));
        requests
    }
}

/// Where the lookup finds nothing, no entry is named `name`.
proof fn lemma_lookup_none(entries: Seq<Registered>, name: Seq<char>, i: int)
    requires
        lookup(entries, name) is None,
        0 <= i < entries.len(),
    ensures
        entries[i].descriptor.name != name,
    decreases entries.len(),
{
    if i > 0 {
        lemma_lookup_none(entries.drop_first(), name, i - 1);
    }
}

/// Where no entry is named `name`, the lookup finds nothing.
pub proof fn lemma_lookup_absent(entries: Seq<Registered>, name: Seq<char>)
    requires
        forall|i: int| 0 <= i < entries.len() ==> (#[trigger] entries[i]).descriptor.name != name,
    ensures
        lookup(entries, name) is None,
    decreases entries.len(),
{
    if entries.len() > 0 {
        let rest = entries.drop_first();
        assert forall|i: int| 0 <= i < rest.len() implies (#[trigger] rest[i]).descriptor.name
            != name by {
            assert(entries[i + 1].descriptor.name != name);
        }
        lemma_lookup_absent(rest, name);
    }
}

/// Where names are distinct, the lookup finds each entry under its own name.
pub proof fn lemma_lookup_finds(entries: Seq<Registered>, at: int)
    requires
        names_distinct(entries),
        0 <= at < entries.len(),
    ensures
        lookup(entries, entries[at].descriptor.name) == Some(entries[at]),
    decreases entries.len(),
{
    if at > 0 {
        let rest = entries.drop_first();
        assert(entries[0].descriptor.name != entries[at].descriptor.name);
        assert forall|i: int, j: int| 0 <= i < j < rest.len() implies (
        #[trigger] rest[i]).descriptor.name != (#[trigger] rest[j]).descriptor.name by {
            assert(entries[i + 1].descriptor.name != entries[j + 1].descriptor.name);
        }
        lemma_lookup_finds(rest, at - 1);
    }
}

/// No two commands of a registry bear one name.
pub proof fn lemma_names_distinct(registry: CommandRegistry)
    requires
        registry.wf(),
    ensures
        names_distinct(registry@),
{
}

} // verus!
