use bot_core::commands::{about, hobbit, join, leave, standard_registry};
use bot_core::event::{ArgSpec, DeclareRequest};
use bot_core::registry::{
    invoke, takes, CommandDescriptor, CommandRegistry, Declaration, DeclareStep, Handler,
    RegistryError,
};

fn fixed(name: &str, text: &str, arg_spec: Option<ArgSpec>) -> CommandDescriptor {
    CommandDescriptor {
        name: name.to_string(),
        description: "d".to_string(),
        arg_spec,
        handler: Handler::Reply { text: text.to_string() },
    }
}

#[test]
fn the_standard_registry_holds_the_four_commands() {
    let registry = standard_registry();
    assert_eq!(registry.len(), 4);
    assert_eq!(registry.resolve("hobbit"), Some(&hobbit()));
    assert_eq!(registry.resolve("about"), Some(&about()));
    assert_eq!(registry.resolve("join"), Some(&join()));
    assert_eq!(registry.resolve("leave"), Some(&leave()));
    assert_eq!(registry.resolve("Hobbit"), None);
    assert_eq!(registry.resolve(""), None);
    assert_eq!(registry.declaration_of("hobbit"), Some(Declaration::Undeclared));
    assert_eq!(registry.declaration_of("nothing"), None);
}

#[test]
fn a_name_is_registered_once() {
    let mut registry = CommandRegistry::new();
    assert_eq!(registry.register(fixed("a", "first", None)), Ok(()));
    assert_eq!(registry.register(fixed("b", "other", None)), Ok(()));
    assert_eq!(registry.register(fixed("a", "second", None)), Err(RegistryError::DuplicateName));
    assert_eq!(registry.len(), 2);
    assert_eq!(registry.resolve("a"), Some(&fixed("a", "first", None)));
    assert_eq!(registry.register(fixed("", "empty", None)), Ok(()));
    assert_eq!(registry.register(fixed("", "empty", None)), Err(RegistryError::DuplicateName));
    assert_eq!(registry.len(), 3);
}

#[test]
fn invoke_gives_the_reply_or_the_fallback() {
    let free = fixed("a", "the reply", None);
    assert_eq!(invoke(&free, ""), "the reply");
    assert_eq!(invoke(&free, "any number of words"), "the reply");
    let two = fixed("a", "the reply", Some(ArgSpec { min_args: 1, max_args: 2 }));
    assert_eq!(invoke(&two, ""), "not implemented :(");
    assert_eq!(invoke(&two, "   "), "not implemented :(");
    assert_eq!(invoke(&two, "x"), "the reply");
    assert_eq!(invoke(&two, " x  y "), "the reply");
    assert_eq!(invoke(&two, "x y z"), "not implemented :(");
    assert_eq!(invoke(&join(), ""), "not implemented :(");
    assert_eq!(invoke(&leave(), ""), "not implemented :(");
    let never = fixed("a", "the reply", Some(ArgSpec { min_args: 2, max_args: 1 }));
    assert_eq!(invoke(&never, "x"), "not implemented :(");
    assert_eq!(invoke(&never, "x y"), "not implemented :(");
}

#[test]
fn takes_counts_words() {
    let exactly_two = Some(ArgSpec { min_args: 2, max_args: 2 });
    assert!(takes(&None, "whatever it is"));
    assert!(takes(&exactly_two, "a b"));
    assert!(takes(&exactly_two, "  a    b  "));
    assert!(!takes(&exactly_two, "a"));
    assert!(!takes(&exactly_two, "a b c"));
    assert!(!takes(&exactly_two, ""));
    assert!(takes(&Some(ArgSpec { min_args: 0, max_args: 0 }), "   "));
}

#[test]
fn declare_remote_calls_once_and_then_answers_from_what_it_knows() {
    let mut registry = standard_registry();
    assert_eq!(
        registry.declare_remote("hobbit"),
        DeclareStep::Call {
            request: DeclareRequest {
                name: "hobbit".to_string(),
                description: "A hobbit command".to_string(),
                arg_spec: None,
            },
        }
    );
    assert_eq!(registry.declaration_of("hobbit"), Some(Declaration::Pending));
    assert_eq!(registry.declare_remote("hobbit"), DeclareStep::InFlight);
    assert!(registry.declaration_finished("hobbit", Some(31)));
    assert_eq!(registry.declare_remote("hobbit"), DeclareStep::Cached { remote_id: 31 });
    assert_eq!(registry.declare_remote("hobbit"), DeclareStep::Cached { remote_id: 31 });
    assert_eq!(registry.declare_remote("nothing"), DeclareStep::Unknown);
    assert_eq!(registry.declaration_of("about"), Some(Declaration::Undeclared));
}

#[test]
fn a_failed_declaration_may_be_called_again() {
    let mut registry = standard_registry();
    assert!(matches!(registry.declare_remote("about"), DeclareStep::Call { .. }));
    assert!(registry.declaration_finished("about", None));
    assert_eq!(registry.declaration_of("about"), Some(Declaration::Undeclared));
    assert!(matches!(registry.declare_remote("about"), DeclareStep::Call { .. }));
}

#[test]
fn an_answer_that_is_not_awaited_changes_nothing() {
    let mut registry = standard_registry();
    assert!(!registry.declaration_finished("about", Some(1)));
    assert_eq!(registry.declaration_of("about"), Some(Declaration::Undeclared));
    registry.declare_remote("about");
    registry.declaration_finished("about", Some(2));
    assert!(!registry.declaration_finished("about", None));
    assert!(!registry.declaration_finished("about", Some(3)));
    assert_eq!(registry.declaration_of("about"), Some(Declaration::Confirmed { remote_id: 2 }));
}

#[test]
fn declare_all_hands_out_what_is_due_in_order() {
    let mut registry = CommandRegistry::new();
    let spec = Some(ArgSpec { min_args: 0, max_args: 2 });
    registry.register(fixed("a", "1", None)).unwrap();
    registry.register(fixed("b", "2", spec)).unwrap();
    registry.register(fixed("c", "3", None)).unwrap();
    registry.declare_remote("a");
    registry.declaration_finished("a", Some(5));
    let request = |name: &str, arg_spec| DeclareRequest {
        name: name.to_string(),
        description: "d".to_string(),
        arg_spec,
    };
    assert_eq!(registry.declare_all(), vec![request("b", spec), request("c", None)]);
    assert_eq!(registry.declaration_of("a"), Some(Declaration::Confirmed { remote_id: 5 }));
    assert_eq!(registry.declaration_of("b"), Some(Declaration::Pending));
    assert_eq!(registry.declaration_of("c"), Some(Declaration::Pending));
    assert!(registry.declare_all().is_empty());
}

#[test]
fn a_request_declares_one_option_for_each_argument() {
    let request = |arg_spec| DeclareRequest {
        name: "n".to_string(),
        description: "d".to_string(),
        arg_spec,
    };
    assert_eq!(request(None).options(), Vec::<bool>::new());
    assert_eq!(request(Some(ArgSpec { min_args: 0, max_args: 0 })).options(), Vec::<bool>::new());
    assert_eq!(
        request(Some(ArgSpec { min_args: 1, max_args: 3 })).options(),
        vec![true, false, false]
    );
    assert_eq!(request(Some(ArgSpec { min_args: 2, max_args: 2 })).options(), vec![true, true]);
    assert_eq!(request(Some(ArgSpec { min_args: 5, max_args: 1 })).options(), vec![true]);
    let most = request(Some(ArgSpec { min_args: 3, max_args: usize::MAX })).options();
    assert_eq!(most.len(), 25);
    assert_eq!(most.iter().filter(|required| **required).count(), 3);
    assert_eq!(request(Some(ArgSpec { min_args: 30, max_args: 26 })).options(), vec![true; 25]);
}
