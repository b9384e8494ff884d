use twilight_commands::arguments::{
    parse, CommandDataOption, CommandOption, CommandOptionType, Error, ToOption, Value,
};
use twilight_commands::commands::Command;
use twilight_commands::error::SchemaError;
use twilight_commands::executor::export::OptionDescriptor;
use twilight_commands::executor::response::{handle, Failure, Response};
use twilight_commands::executor::slash::CommandExecutor;

type Erased = Box<dyn Fn(&u32, Vec<CommandDataOption>, &String) -> Result<String, Failure>>;

struct Ping;

impl Command for Ping {
    fn options() -> Vec<CommandOption> {
        Vec::new()
    }

    fn from_command_data(_data: Vec<CommandDataOption>) -> Result<Self, Error> {
        Ok(Ping)
    }

    fn description() -> &'static str {
        "Replies with pong"
    }

    fn name() -> &'static str {
        "ping"
    }
}

struct NoteAdd {
    text: String,
}

impl Command for NoteAdd {
    fn options() -> Vec<CommandOption> {
        vec![String::to_option().name("text").description("The text of the note")]
    }

    fn from_command_data(data: Vec<CommandDataOption>) -> Result<Self, Error> {
        Ok(NoteAdd {
            text: parse(&data, "text")?,
        })
    }

    fn description() -> &'static str {
        "Adds a note"
    }

    fn name() -> &'static str {
        "note add"
    }
}

fn erase<C: Command + 'static>(
    handler: impl Fn(C, &u32, &String) -> Result<String, String> + 'static,
) -> Erased {
    Box::new(move |context, data, state| handle(&handler, context, data, state))
}

fn text(name: &str, value: &str) -> CommandDataOption {
    CommandDataOption {
        name: name.to_string(),
        value: Value::String(value.to_string()),
    }
}

fn reply_of(response: Option<Response<String>>) -> String {
    match response {
        Some(Response::Reply(reply)) => reply,
        other => panic!("expected a reply, got {other:?}"),
    }
}

fn fallback_of(response: Option<Response<String>>) -> String {
    match response {
        Some(Response::Fallback(envelope)) => envelope.message,
        other => panic!("expected the fallback, got {other:?}"),
    }
}

#[test]
fn ping_returns_the_fixed_response() {
    let mut executor: CommandExecutor<Erased> = CommandExecutor::new();
    assert_eq!(
        executor.register::<Ping>(erase(|_: Ping, _, _| Ok("pong".to_string()))),
        Ok(())
    );
    let state = "state".to_string();
    let response = executor.execute("ping", &7, Vec::new(), &state);
    assert_eq!(reply_of(response), "pong");
}

#[test]
fn note_add_receives_its_text() {
    let mut executor: CommandExecutor<Erased> = CommandExecutor::new();
    assert_eq!(
        executor.register::<NoteAdd>(erase(|note: NoteAdd, context, state| {
            Ok(format!("{}:{}:{}", note.text, context, state))
        })),
        Ok(())
    );
    let state = "shared".to_string();
    let response = executor.execute("note add", &3, vec![text("text", "hi")], &state);
    assert_eq!(reply_of(response), "hi:3:shared");
}

#[test]
fn note_add_without_text_yields_the_fallback() {
    let mut executor: CommandExecutor<Erased> = CommandExecutor::new();
    executor
        .register::<NoteAdd>(erase(|_: NoteAdd, _, _| {
            panic!("the handler must not run when decoding fails")
        }))
        .unwrap();
    let state = String::new();
    let response = executor.execute("note add", &0, Vec::new(), &state);
    assert_eq!(fallback_of(response), "Failed to parse command data.");
}

#[test]
fn handler_failure_yields_the_fallback() {
    let mut executor: CommandExecutor<Erased> = CommandExecutor::new();
    executor
        .register::<Ping>(erase(|_: Ping, _, _| Err("out of pongs".to_string())))
        .unwrap();
    let state = String::new();
    let response = executor.execute("ping", &0, Vec::new(), &state);
    assert_eq!(fallback_of(response), "An error occurred: out of pongs");
}

#[test]
fn registering_a_name_again_replaces_the_entry() {
    let mut executor: CommandExecutor<Erased> = CommandExecutor::new();
    executor
        .register::<Ping>(erase(|_: Ping, _, _| Ok("first".to_string())))
        .unwrap();
    executor
        .register::<Ping>(erase(|_: Ping, _, _| Ok("second".to_string())))
        .unwrap();
    let state = String::new();
    assert_eq!(reply_of(executor.execute("ping", &0, Vec::new(), &state)), "second");
    assert_eq!(executor.build_commands().unwrap().len(), 1);
}

#[test]
fn unknown_paths_find_nothing_at_every_depth() {
    let mut executor: CommandExecutor<u32> = CommandExecutor::new();
    executor.register_entry("ping", "", Vec::new(), 1).unwrap();
    executor.register_entry("note add", "", Vec::new(), 2).unwrap();
    executor.register_entry("admin user ban", "", Vec::new(), 3).unwrap();
    for name in [
        "pong", "ping pong", "ping pong pang", "note", "note remove", "note add now", "admin",
        "admin user", "admin user kick", "admin role ban", "other one two", "", " ", "ping ",
    ] {
        assert!(executor.lookup(name).is_none(), "{name:?} must find nothing");
    }
    assert_eq!(executor.lookup("ping").map(|info| info.handler), Some(1));
    assert_eq!(executor.lookup("note add").map(|info| info.handler), Some(2));
    assert_eq!(executor.lookup("admin user ban").map(|info| info.handler), Some(3));
}

#[test]
fn executing_a_group_gives_no_response() {
    let mut executor: CommandExecutor<Erased> = CommandExecutor::new();
    executor
        .register::<NoteAdd>(erase(|_: NoteAdd, _, _| Ok("added".to_string())))
        .unwrap();
    let state = String::new();
    assert!(executor.execute("note", &0, vec![text("text", "hi")], &state).is_none());
    assert!(executor.execute("nothing", &0, Vec::new(), &state).is_none());
}

#[test]
fn registering_below_a_command_is_refused() {
    let mut executor: CommandExecutor<u32> = CommandExecutor::new();
    executor.register_entry("note", "", Vec::new(), 1).unwrap();
    assert!(!executor.accepts("note add"));
    assert_eq!(
        executor.register_entry("note add", "", Vec::new(), 2),
        Err(SchemaError::CommandInPath)
    );
    assert_eq!(executor.lookup("note").map(|info| info.handler), Some(1));
    assert!(executor.lookup("note add").is_none());
    assert!(executor.accepts("note"));
    assert!(executor.accepts("other add"));
}

#[test]
fn registering_a_command_over_a_group_replaces_the_group() {
    let mut executor: CommandExecutor<u32> = CommandExecutor::new();
    executor.register_entry("note add", "", Vec::new(), 1).unwrap();
    executor.register_entry("note", "", Vec::new(), 2).unwrap();
    assert_eq!(executor.lookup("note").map(|info| info.handler), Some(2));
    assert!(executor.lookup("note add").is_none());
}

#[test]
fn export_keeps_the_declared_options_in_order() {
    let mut executor: CommandExecutor<u32> = CommandExecutor::new();
    let declared = vec![
        String::to_option().name("title").description("The title"),
        <Option<i64> as ToOption>::to_option().name("count"),
        bool::to_option().name("pinned"),
    ];
    executor
        .register_entry("note", "Writes a note", declared.clone(), 1)
        .unwrap();
    let exported = executor.build_commands().unwrap();
    assert_eq!(exported.len(), 1);
    assert_eq!(exported[0].name, "note");
    assert_eq!(exported[0].description, "Writes a note");
    assert_eq!(exported[0].options.len(), 3);
    for (exported, declared) in exported[0].options.iter().zip(&declared) {
        match exported {
            OptionDescriptor::Argument(option) => {
                assert_eq!(option.name, declared.name);
                assert_eq!(option.description, declared.description);
                assert_eq!(option.kind, declared.kind);
                assert_eq!(option.required, declared.required);
            }
            other => panic!("expected an argument, got {other:?}"),
        }
    }
    assert_eq!(
        exported[0]
            .options
            .iter()
            .map(|option| match option {
                OptionDescriptor::Argument(option) => option.kind,
                _ => unreachable!(),
            })
            .collect::<Vec<_>>(),
        vec![CommandOptionType::String, CommandOptionType::Integer, CommandOptionType::Boolean]
    );
}

#[test]
fn export_nests_subcommands_and_groups() {
    let mut executor: CommandExecutor<u32> = CommandExecutor::new();
    executor.register_entry("ping", "Pings", Vec::new(), 1).unwrap();
    executor
        .register_entry("note add", "Adds", vec![String::to_option().name("text")], 2)
        .unwrap();
    executor.register_entry("note remove", "Removes", Vec::new(), 3).unwrap();
    executor.register_entry("admin user ban", "Bans", Vec::new(), 4).unwrap();
    executor.register_entry("admin user kick", "Kicks", Vec::new(), 5).unwrap();
    executor.register_entry("admin role grant", "Grants", Vec::new(), 6).unwrap();
    let exported = executor.build_commands().unwrap();
    let names: Vec<&str> = exported.iter().map(|command| command.name.as_str()).collect();
    assert_eq!(names, vec!["ping", "note", "admin"]);
    assert!(exported[0].options.is_empty());
    assert_eq!(exported[1].description, "No description provided");
    match &exported[1].options[..] {
        [OptionDescriptor::SubCommand(add), OptionDescriptor::SubCommand(remove)] => {
            assert_eq!(add.name, "add");
            assert_eq!(add.description, "Adds");
            assert_eq!(add.options.len(), 1);
            assert_eq!(add.options[0].name.as_deref(), Some("text"));
            assert_eq!(remove.name, "remove");
            assert!(remove.options.is_empty());
        }
        other => panic!("expected two subcommands, got {other:?}"),
    }
    match &exported[2].options[..] {
        [OptionDescriptor::SubCommandGroup(user), OptionDescriptor::SubCommandGroup(role)] => {
            assert_eq!(user.name, "user");
            assert_eq!(user.description, "No description provided");
            let subcommands: Vec<&str> =
                user.subcommands.iter().map(|sub| sub.name.as_str()).collect();
            assert_eq!(subcommands, vec!["ban", "kick"]);
            assert_eq!(role.name, "role");
            assert_eq!(role.subcommands.len(), 1);
            assert_eq!(role.subcommands[0].description, "Grants");
        }
        other => panic!("expected two groups, got {other:?}"),
    }
}

#[test]
fn export_refuses_mixed_siblings() {
    let mut executor: CommandExecutor<u32> = CommandExecutor::new();
    executor.register_entry("note add", "", Vec::new(), 1).unwrap();
    executor.register_entry("note tag set", "", Vec::new(), 2).unwrap();
    assert_eq!(executor.build_commands().unwrap_err(), SchemaError::MixedSiblings);
}

#[test]
fn export_refuses_a_fourth_level() {
    let mut executor: CommandExecutor<u32> = CommandExecutor::new();
    executor.register_entry("a b c d", "", Vec::new(), 1).unwrap();
    assert_eq!(executor.build_commands().unwrap_err(), SchemaError::TooDeep);
    assert_eq!(executor.lookup("a b c d").map(|info| info.handler), Some(1));
}

#[test]
fn export_reports_the_first_child_that_fails() {
    let mut executor: CommandExecutor<u32> = CommandExecutor::new();
    executor.register_entry("ok", "", Vec::new(), 0).unwrap();
    executor.register_entry("deep b c d", "", Vec::new(), 1).unwrap();
    executor.register_entry("mixed add", "", Vec::new(), 2).unwrap();
    executor.register_entry("mixed tag set", "", Vec::new(), 3).unwrap();
    assert_eq!(executor.build_commands().unwrap_err(), SchemaError::TooDeep);
}

#[test]
fn an_empty_executor_exports_nothing() {
    let executor: CommandExecutor<u32> = CommandExecutor::default();
    assert!(executor.build_commands().unwrap().is_empty());
    assert!(executor.lookup("ping").is_none());
}
