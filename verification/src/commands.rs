//! The commands that the bot is built with.

use crate::registry::{
    lemma_lookup_absent, CommandDescriptor, CommandDescriptorView, CommandRegistry, Declaration,
    Handler, HandlerView, Registered,
};
use vstd::prelude::*;
use vstd::string::*;

verus! {

/// `hobbit`: answers with a line about hobbits.
pub open spec fn hobbit_descriptor() -> CommandDescriptorView {
    CommandDescriptorView {
        name: "hobbit"@,
        description: "A hobbit command"@,
        arg_spec: None,
        handler: HandlerView::Reply { text: "In a hole in the ground there lived a hobbit."@ },
    }
}

/// `about`: says who made the bot.
pub open spec fn about_descriptor() -> CommandDescriptorView {
    CommandDescriptorView {
        name: "about"@,
        description: "Who made this bot"@,
        arg_spec: None,
        handler: HandlerView::Reply {
            text: "Esse bot foi criado por um lufano! (lufa-lufa >>> melhor casa de hogwarts :P)"@,
        },
    }
}

/// `join`: asks for a voice session.
pub open spec fn join_descriptor() -> CommandDescriptorView {
    CommandDescriptorView {
        name: "join"@,
        description: "Joins your voice channel"@,
        arg_spec: None,
        handler: HandlerView::Join,
    }
}

/// `leave`: asks to end the voice session.
pub open spec fn leave_descriptor() -> CommandDescriptorView {
    CommandDescriptorView {
        name: "leave"@,
        description: "Leaves the voice channel"@,
        arg_spec: None,
        handler: HandlerView::Leave,
    }
}

/// A command that has not been declared.
pub open spec fn undeclared(descriptor: CommandDescriptorView) -> Registered {
    Registered { descriptor, declaration: Declaration::Undeclared }
}

/// The registry that the bot starts with.
pub open spec fn standard_entries() -> Seq<Registered> {
    seq![
        undeclared(hobbit_descriptor()),
        undeclared(about_descriptor()),
        undeclared(join_descriptor()),
        undeclared(leave_descriptor()),
    ]
}

/// The `hobbit` command.
pub fn hobbit() -> (descriptor: CommandDescriptor)
    ensures
        descriptor@ == hobbit_descriptor(),
{
    CommandDescriptor {
        name: String::from_str("hobbit"),
        description: String::from_str("A hobbit command"),
        arg_spec: None,
        handler: Handler::Reply {
            text: String::from_str("In a hole in the ground there lived a hobbit."),
        },
    }
}

/// The `about` command.
pub fn about() -> (descriptor: CommandDescriptor)
    ensures
        descriptor@ == about_descriptor(),
{
    CommandDescriptor {
        name: String::from_str("about"),
        description: String::from_str("Who made this bot"),
        arg_spec: None,
        handler: Handler::Reply {
            text: String::from_str(
                "Esse bot foi criado por um lufano! (lufa-lufa >>> melhor casa de hogwarts :P)",
            ),
        },
    }
}

/// The `join` command.
pub fn join() -> (descriptor: CommandDescriptor)
    ensures
        descriptor@ == join_descriptor(),
{
    CommandDescriptor {
        name: String::from_str("join"),
        description: String::from_str("Joins your voice channel"),
        arg_spec: None,
        handler: Handler::Join,
    }
}

/// The `leave` command.
pub fn leave() -> (descriptor: CommandDescriptor)
    ensures
        descriptor@ == leave_descriptor(),
{
    CommandDescriptor {
        name: String::from_str("leave"),
        description: String::from_str("Leaves the voice channel"),
        arg_spec: None,
        handler: Handler::Leave,
    }
}

/// The four names differ from each other.
proof fn lemma_standard_names()
    ensures
        "hobbit"@ != "about"@,
        "hobbit"@ != "join"@,
        "hobbit"@ != "leave"@,
        "about"@ != "join"@,
        "about"@ != "leave"@,
        "join"@ != "leave"@,
{
    reveal_strlit("hobbit");
    reveal_strlit("about");
    reveal_strlit("join");
    reveal_strlit("leave");
    assert("hobbit"@.len() == 6);
    assert("about"@.len() == 5);
    assert("join"@.len() == 4);
    assert("leave"@.len() == 5);
    assert("about"@[0] == 'a');
    assert("leave"@[0] == 'l');
}

/// The registry that the bot starts with: `hobbit`, `about`, `join` and
/// `leave`, none of them declared.
pub fn standard_registry() -> (registry: CommandRegistry)
    ensures
        registry@ == standard_entries(),
{
    let mut registry = CommandRegistry::new();
    proof {
        lemma_standard_names();
    }
    proof {
        lemma_lookup_absent(registry@, hobbit_descriptor().name);
    }
    let first = registry.register(hobbit());
    proof {
        lemma_lookup_absent(registry@, about_descriptor().name);
    }
    let second = registry.register(about());
    proof {
        lemma_lookup_absent(registry@, join_descriptor().name);
    }
    let third = registry.register(join());
    proof {
        lemma_lookup_absent(registry@, leave_descriptor().name);
    }
    let fourth = registry.register(leave());
    assert(first is Ok && second is Ok && third is Ok && fourth is Ok);
    assert(registry@ =~= standard_entries());
    registry
}

} // verus!
