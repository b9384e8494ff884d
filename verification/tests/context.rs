use twilight_commands::executor::context::ContextCommands;
use twilight_commands::executor::export::CommandDescriptor;
use twilight_commands::executor::response::{ErrorEnvelope, Response};

type Handler = Box<dyn Fn(&u32, &String) -> Result<String, String>>;

#[test]
fn execute_invokes_the_named_command() {
    let mut commands: ContextCommands<Handler> = ContextCommands::new();
    commands.register("Greet", Box::new(|context, state| Ok(format!("{state} {context}"))));
    commands.register("Fail", Box::new(|_, _| Err("no luck".to_string())));
    let state = "hello".to_string();
    assert_eq!(
        commands.execute("Greet", &4, &state),
        Some(Response::Reply("hello 4".to_string()))
    );
    assert_eq!(
        commands.execute("Fail", &4, &state),
        Some(Response::Fallback(ErrorEnvelope {
            message: "An error occurred: no luck".to_string()
        }))
    );
    assert_eq!(commands.execute("Other", &4, &state), None);
}

#[test]
fn a_registered_command_is_found() {
    let mut commands: ContextCommands<u32> = ContextCommands::new();
    commands.register("Report message", 1);
    commands.register("Pin", 2);
    assert_eq!(commands.get("Report message"), Some(&1));
    assert_eq!(commands.get("Pin"), Some(&2));
}

#[test]
fn an_unknown_command_is_not_found() {
    let mut commands: ContextCommands<u32> = ContextCommands::default();
    assert_eq!(commands.get("Pin"), None);
    commands.register("Pin", 2);
    assert_eq!(commands.get("pin"), None);
    assert_eq!(commands.get("Pin "), None);
    assert_eq!(commands.get(""), None);
}

#[test]
fn names_are_not_split() {
    let mut commands: ContextCommands<u32> = ContextCommands::new();
    commands.register("Report message", 1);
    assert_eq!(commands.get("Report"), None);
    assert_eq!(commands.get("message"), None);
}

#[test]
fn registering_again_replaces_in_place() {
    let mut commands: ContextCommands<&str> = ContextCommands::new();
    commands.register("A", "first");
    commands.register("B", "other");
    commands.register("A", "second");
    assert_eq!(commands.get("A"), Some(&"second"));
    assert_eq!(commands.get("B"), Some(&"other"));
    let names: Vec<String> = commands.build_commands().into_iter().map(|c| c.name).collect();
    assert_eq!(names, vec!["A".to_string(), "B".to_string()]);
}

#[test]
fn export_lists_names_without_description_or_options() {
    let mut commands: ContextCommands<u32> = ContextCommands::new();
    assert!(commands.build_commands().is_empty());
    commands.register("Report message", 1);
    commands.register("Pin", 2);
    assert_eq!(
        commands.build_commands(),
        vec![
            CommandDescriptor {
                name: "Report message".to_string(),
                description: String::new(),
                options: Vec::new(),
            },
            CommandDescriptor {
                name: "Pin".to_string(),
                description: String::new(),
                options: Vec::new(),
            },
        ]
    );
}
