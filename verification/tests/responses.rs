use twilight_commands::arguments::{parse, CommandDataOption, CommandOption, Error, ToOption, Value};
use twilight_commands::commands::Command;
use twilight_commands::executor::response::{
    conclude, envelope, handle, ErrorEnvelope, Failure, Response,
};

struct Echo {
    text: String,
    times: Option<u8>,
}

impl Command for Echo {
    fn options() -> Vec<CommandOption> {
        vec![
            String::to_option().name("text"),
            <Option<u8> as ToOption>::to_option().name("times"),
        ]
    }

    fn from_command_data(data: Vec<CommandDataOption>) -> Result<Self, Error> {
        Ok(Echo {
            text: parse(&data, "text")?,
            times: parse(&data, "times")?,
        })
    }

    fn description() -> &'static str {
        "Repeats"
    }

    fn name() -> &'static str {
        "echo"
    }
}

fn run(data: Vec<CommandDataOption>) -> Result<String, Failure> {
    handle(
        &|echo: Echo, prefix: &String, _: &()| {
            if echo.text.is_empty() {
                Err("nothing to say".to_string())
            } else {
                Ok(format!("{prefix}{}", echo.text.repeat(echo.times.unwrap_or(1) as usize)))
            }
        },
        &">".to_string(),
        data,
        &(),
    )
}

fn option(name: &str, value: Value) -> CommandDataOption {
    CommandDataOption {
        name: name.to_string(),
        value,
    }
}

#[test]
fn envelope_of_a_decode_failure() {
    assert_eq!(
        envelope(&Failure::Decode(Error::InvalidType)),
        ErrorEnvelope { message: "Failed to parse command data.".to_string() }
    );
}

#[test]
fn envelope_of_a_handler_failure() {
    assert_eq!(
        envelope(&Failure::Handler("disk full".to_string())).message,
        "An error occurred: disk full"
    );
    assert_eq!(envelope(&Failure::Handler(String::new())).message, "An error occurred: ");
}

#[test]
fn conclude_hands_a_reply_on() {
    assert_eq!(conclude::<u32>(Ok(5)), Response::Reply(5));
}

#[test]
fn conclude_turns_failures_into_the_fallback() {
    assert_eq!(
        conclude::<u32>(Err(Failure::Decode(Error::InvalidType))),
        Response::Fallback(ErrorEnvelope { message: "Failed to parse command data.".to_string() })
    );
    assert_eq!(
        conclude::<u32>(Err(Failure::Handler("boom".to_string()))),
        Response::Fallback(ErrorEnvelope { message: "An error occurred: boom".to_string() })
    );
}

#[test]
fn handle_decodes_then_invokes() {
    let data = vec![
        option("text", Value::String("ab".to_string())),
        option("times", Value::Number(3.0f64.to_bits())),
    ];
    assert_eq!(run(data), Ok(">ababab".to_string()));
    assert_eq!(
        run(vec![option("text", Value::String("ab".to_string()))]),
        Ok(">ab".to_string())
    );
}

#[test]
fn handle_does_not_invoke_when_decoding_fails() {
    assert_eq!(run(Vec::new()), Err(Failure::Decode(Error::InvalidType)));
    assert_eq!(
        run(vec![option("text", Value::Boolean(true))]),
        Err(Failure::Decode(Error::InvalidType))
    );
    assert_eq!(
        run(vec![
            option("text", Value::String("ab".to_string())),
            option("times", Value::String("3".to_string())),
        ]),
        Err(Failure::Decode(Error::InvalidType))
    );
}

#[test]
fn handle_reports_the_cause_of_a_handler_failure() {
    assert_eq!(
        run(vec![option("text", Value::String(String::new()))]),
        Err(Failure::Handler("nothing to say".to_string()))
    );
}

#[test]
fn declared_options_of_a_command() {
    assert_eq!(Echo::name(), "echo");
    assert_eq!(Echo::description(), "Repeats");
    let options = Echo::options();
    assert_eq!(options.len(), 2);
    assert!(options[0].required);
    assert!(!options[1].required);
}
