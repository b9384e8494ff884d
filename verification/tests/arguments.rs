use twilight_commands::arguments::{
    find_value, parse, ArgumentConverter, CommandDataOption, CommandOption, CommandOptionChoice,
    CommandOptionType, Error, OptionalArgumentConverter, ToOption, Value,
};
use twilight_model::application::command::CommandOptionValue;
use twilight_model::channel::ChannelType;
use twilight_model::id::marker::{ChannelMarker, GenericMarker, RoleMarker, UserMarker};
use twilight_model::id::Id;

#[derive(Debug, PartialEq)]
struct Shout(String);

impl ArgumentConverter for Shout {
    fn convert(data: &Value) -> Result<Self, Error> {
        match data {
            Value::String(text) => Ok(Shout(text.to_uppercase())),
            _ => Err(Error::InvalidType),
        }
    }
}

impl ToOption for Shout {
    fn to_option() -> CommandOption {
        CommandOption::new(CommandOptionType::String).min_length(1)
    }
}

fn string(text: &str) -> Value {
    Value::String(text.to_string())
}

fn data(name: &str, value: Value) -> CommandDataOption {
    CommandDataOption {
        name: name.to_string(),
        value,
    }
}

fn all_values() -> Vec<Value> {
    vec![
        string("text"),
        Value::Number(2.5f64.to_bits()),
        Value::Boolean(true),
        Value::User(Id::new(11)),
        Value::Role(Id::new(12)),
        Value::Channel(Id::new(13)),
        Value::Mentionable(Id::new(14)),
        Value::SubcommandGroup(vec!["note".to_string(), "add".to_string()]),
    ]
}

#[test]
fn new_option_is_required_and_bare() {
    let option = CommandOption::new(CommandOptionType::Number);
    assert_eq!(
        option,
        CommandOption {
            autocomplete: None,
            channel_types: None,
            choices: None,
            name: None,
            description: None,
            kind: CommandOptionType::Number,
            max_length: None,
            max_value: None,
            min_length: None,
            min_value: None,
            required: true,
        }
    );
}

#[test]
fn builders_set_one_field_each() {
    let bare = CommandOption::new(CommandOptionType::String);
    assert_eq!(bare.clone().autocomplete(true).autocomplete, Some(true));
    assert_eq!(bare.clone().autocomplete(false).autocomplete, Some(false));
    assert_eq!(bare.clone().max_length(40).max_length, Some(40));
    assert_eq!(bare.clone().min_length(2).min_length, Some(2));
    assert_eq!(
        bare.clone().max_value(CommandOptionValue::Integer(9)).max_value,
        Some(CommandOptionValue::Integer(9))
    );
    assert_eq!(
        bare.clone().min_value(CommandOptionValue::Number(0.5)).min_value,
        Some(CommandOptionValue::Number(0.5))
    );
    assert!(!bare.clone().required(false).required);
    assert!(bare.clone().required(false).required(true).required);
    assert_eq!(bare.clone().name("title").name.as_deref(), Some("title"));
    assert_eq!(
        bare.clone().description("The title").description.as_deref(),
        Some("The title")
    );
    let choices = vec![CommandOptionChoice {
        name: "Red".to_string(),
        value: "red".to_string(),
    }];
    assert_eq!(bare.clone().choices(choices.clone()).choices, Some(choices));
    let changed = bare.clone().max_length(40);
    assert_eq!(changed, CommandOption { max_length: Some(40), ..bare });
}

#[test]
fn builders_chain() {
    let option = CommandOption::new(CommandOptionType::Integer)
        .name("count")
        .description("How many")
        .required(false)
        .min_value(CommandOptionValue::Integer(1))
        .max_value(CommandOptionValue::Integer(10))
        .autocomplete(true);
    assert_eq!(
        option,
        CommandOption {
            autocomplete: Some(true),
            channel_types: None,
            choices: None,
            name: Some("count".to_string()),
            description: Some("How many".to_string()),
            kind: CommandOptionType::Integer,
            max_length: None,
            max_value: Some(CommandOptionValue::Integer(10)),
            min_length: None,
            min_value: Some(CommandOptionValue::Integer(1)),
            required: false,
        }
    );
}

#[test]
fn channel_types_replace_and_channel_type_appends() {
    let option = CommandOption::new(CommandOptionType::Channel);
    let one = option.clone().channel_type(ChannelType::GuildText);
    assert_eq!(one.channel_types, Some(vec![ChannelType::GuildText]));
    let two = one.channel_type(ChannelType::GuildVoice);
    assert_eq!(
        two.channel_types,
        Some(vec![ChannelType::GuildText, ChannelType::GuildVoice])
    );
    let replaced = two.channel_types(vec![ChannelType::GuildForum]);
    assert_eq!(replaced.channel_types, Some(vec![ChannelType::GuildForum]));
    let more = replaced.channel_type(ChannelType::Private);
    assert_eq!(
        more.channel_types,
        Some(vec![ChannelType::GuildForum, ChannelType::Private])
    );
}

#[test]
fn clone_keeps_every_field() {
    let option = CommandOption::new(CommandOptionType::Channel)
        .name("where")
        .description("The channel")
        .channel_types(vec![ChannelType::GuildText, ChannelType::GuildVoice])
        .choices(vec![
            CommandOptionChoice { name: "A".to_string(), value: "a".to_string() },
            CommandOptionChoice { name: "B".to_string(), value: "b".to_string() },
        ])
        .min_length(1)
        .max_length(2)
        .min_value(CommandOptionValue::Integer(3))
        .max_value(CommandOptionValue::Number(4.5))
        .autocomplete(false)
        .required(false);
    assert_eq!(option.clone(), option);
    let choice = CommandOptionChoice { name: "A".to_string(), value: "a".to_string() };
    assert_eq!(choice.clone(), choice);
}

#[test]
fn error_message_is_fixed() {
    assert_eq!(Error::InvalidType.message(), "Invalid type for command argument");
}

#[test]
fn string_decodes_only_from_string() {
    assert_eq!(
        <String as ArgumentConverter>::convert(&string("hello")),
        Ok("hello".to_string())
    );
    assert_eq!(<String as ArgumentConverter>::convert(&string("")), Ok(String::new()));
    for value in all_values().into_iter().skip(1) {
        assert_eq!(<String as ArgumentConverter>::convert(&value), Err(Error::InvalidType));
    }
}

#[test]
fn bool_decodes_only_from_boolean() {
    assert_eq!(<bool as ArgumentConverter>::convert(&Value::Boolean(true)), Ok(true));
    assert_eq!(<bool as ArgumentConverter>::convert(&Value::Boolean(false)), Ok(false));
    for value in all_values() {
        if value != Value::Boolean(true) {
            assert_eq!(<bool as ArgumentConverter>::convert(&value), Err(Error::InvalidType));
        }
    }
}

#[test]
fn char_takes_the_first_character() {
    assert_eq!(<char as ArgumentConverter>::convert(&string("ab")), Ok('a'));
    assert_eq!(<char as ArgumentConverter>::convert(&string("z")), Ok('z'));
    assert_eq!(<char as ArgumentConverter>::convert(&string("éa")), Ok('é'));
    assert_eq!(<char as ArgumentConverter>::convert(&string("日本")), Ok('日'));
}

#[test]
fn char_of_an_empty_string_is_invalid() {
    assert_eq!(<char as ArgumentConverter>::convert(&string("")), Err(Error::InvalidType));
    for value in all_values().into_iter().skip(1) {
        assert_eq!(<char as ArgumentConverter>::convert(&value), Err(Error::InvalidType));
    }
}

#[test]
fn identifiers_decode_only_from_their_own_tag() {
    let values = all_values();
    assert_eq!(<Id<UserMarker> as ArgumentConverter>::convert(&values[3]), Ok(Id::new(11)));
    assert_eq!(<Id<RoleMarker> as ArgumentConverter>::convert(&values[4]), Ok(Id::new(12)));
    assert_eq!(<Id<ChannelMarker> as ArgumentConverter>::convert(&values[5]), Ok(Id::new(13)));
    assert_eq!(<Id<GenericMarker> as ArgumentConverter>::convert(&values[6]), Ok(Id::new(14)));
    for (i, value) in values.iter().enumerate() {
        if i != 3 {
            assert_eq!(<Id<UserMarker> as ArgumentConverter>::convert(value), Err(Error::InvalidType));
        }
        if i != 4 {
            assert_eq!(<Id<RoleMarker> as ArgumentConverter>::convert(value), Err(Error::InvalidType));
        }
        if i != 5 {
            assert_eq!(
                <Id<ChannelMarker> as ArgumentConverter>::convert(value),
                Err(Error::InvalidType)
            );
        }
        if i != 6 {
            assert_eq!(
                <Id<GenericMarker> as ArgumentConverter>::convert(value),
                Err(Error::InvalidType)
            );
        }
    }
}

#[test]
fn subcommand_groups_are_never_argument_values() {
    let group = Value::SubcommandGroup(vec!["note".to_string()]);
    assert_eq!(<String as ArgumentConverter>::convert(&group), Err(Error::InvalidType));
    assert_eq!(<i64 as ArgumentConverter>::convert(&group), Err(Error::InvalidType));
    assert_eq!(<bool as ArgumentConverter>::convert(&group), Err(Error::InvalidType));
    assert_eq!(<char as ArgumentConverter>::convert(&group), Err(Error::InvalidType));
    assert_eq!(
        <Option<String> as OptionalArgumentConverter>::convert(Some(&group)),
        Err(Error::InvalidType)
    );
}

#[test]
fn absent_optional_is_none() {
    assert_eq!(<Option<String> as OptionalArgumentConverter>::convert(None), Ok(None));
    assert_eq!(<Option<i32> as OptionalArgumentConverter>::convert(None), Ok(None));
    assert_eq!(<Option<char> as OptionalArgumentConverter>::convert(None), Ok(None));
    assert_eq!(<Option<Id<UserMarker>> as OptionalArgumentConverter>::convert(None), Ok(None));
    assert_eq!(<Option<Shout> as OptionalArgumentConverter>::convert(None), Ok(None));
    assert_eq!(<Option<Option<bool>> as OptionalArgumentConverter>::convert(None), Ok(None));
}

#[test]
fn absent_required_is_invalid() {
    assert_eq!(<String as OptionalArgumentConverter>::convert(None), Err(Error::InvalidType));
    assert_eq!(<i32 as OptionalArgumentConverter>::convert(None), Err(Error::InvalidType));
    assert_eq!(<bool as OptionalArgumentConverter>::convert(None), Err(Error::InvalidType));
    assert_eq!(<char as OptionalArgumentConverter>::convert(None), Err(Error::InvalidType));
    assert_eq!(<Id<RoleMarker> as OptionalArgumentConverter>::convert(None), Err(Error::InvalidType));
    assert_eq!(<Shout as OptionalArgumentConverter>::convert(None), Err(Error::InvalidType));
}

#[test]
fn present_optional_decodes_as_the_type_it_wraps() {
    assert_eq!(
        <Option<String> as OptionalArgumentConverter>::convert(Some(&string("x"))),
        Ok(Some("x".to_string()))
    );
    assert_eq!(
        <Option<bool> as OptionalArgumentConverter>::convert(Some(&string("x"))),
        Err(Error::InvalidType)
    );
    assert_eq!(
        <Option<char> as OptionalArgumentConverter>::convert(Some(&string(""))),
        Err(Error::InvalidType)
    );
    assert_eq!(
        <Option<Option<bool>> as OptionalArgumentConverter>::convert(Some(&Value::Boolean(true))),
        Ok(Some(Some(true)))
    );
    assert_eq!(
        <String as OptionalArgumentConverter>::convert(Some(&string("y"))),
        Ok("y".to_string())
    );
}

#[test]
fn built_in_schemas() {
    assert_eq!(String::to_option(), CommandOption::new(CommandOptionType::String));
    assert_eq!(bool::to_option(), CommandOption::new(CommandOptionType::Boolean));
    assert_eq!(
        char::to_option(),
        CommandOption::new(CommandOptionType::String).max_length(1)
    );
    assert_eq!(i8::to_option(), CommandOption::new(CommandOptionType::Integer));
    assert_eq!(i16::to_option(), CommandOption::new(CommandOptionType::Integer));
    assert_eq!(i32::to_option(), CommandOption::new(CommandOptionType::Integer));
    assert_eq!(i64::to_option(), CommandOption::new(CommandOptionType::Integer));
    assert_eq!(i128::to_option(), CommandOption::new(CommandOptionType::Integer));
    assert_eq!(isize::to_option(), CommandOption::new(CommandOptionType::Integer));
    assert_eq!(u8::to_option(), CommandOption::new(CommandOptionType::Integer));
    assert_eq!(u16::to_option(), CommandOption::new(CommandOptionType::Integer));
    assert_eq!(u32::to_option(), CommandOption::new(CommandOptionType::Integer));
    assert_eq!(u64::to_option(), CommandOption::new(CommandOptionType::Integer));
    assert_eq!(u128::to_option(), CommandOption::new(CommandOptionType::Integer));
    assert_eq!(usize::to_option(), CommandOption::new(CommandOptionType::Integer));
    assert_eq!(
        <Id<UserMarker> as ToOption>::to_option(),
        CommandOption::new(CommandOptionType::User)
    );
    assert_eq!(
        <Id<RoleMarker> as ToOption>::to_option(),
        CommandOption::new(CommandOptionType::Role)
    );
    assert_eq!(
        <Id<ChannelMarker> as ToOption>::to_option(),
        CommandOption::new(CommandOptionType::Channel)
    );
    assert_eq!(
        <Id<GenericMarker> as ToOption>::to_option(),
        CommandOption::new(CommandOptionType::Mentionable)
    );
}

#[test]
fn optional_schema_is_the_inner_one_but_not_required() {
    assert_eq!(
        <Option<String> as ToOption>::to_option(),
        CommandOption::new(CommandOptionType::String).required(false)
    );
    assert_eq!(
        <Option<char> as ToOption>::to_option(),
        CommandOption::new(CommandOptionType::String).max_length(1).required(false)
    );
    assert_eq!(
        <Option<Shout> as ToOption>::to_option(),
        CommandOption::new(CommandOptionType::String).min_length(1).required(false)
    );
    assert_eq!(
        <Option<Option<u8>> as ToOption>::to_option(),
        CommandOption::new(CommandOptionType::Integer).required(false)
    );
}

#[test]
fn find_value_takes_the_last_of_a_name() {
    let options = vec![
        data("a", string("first")),
        data("b", Value::Boolean(true)),
        data("a", string("second")),
    ];
    assert_eq!(find_value(&options, "a"), Some(&string("second")));
    assert_eq!(find_value(&options, "b"), Some(&Value::Boolean(true)));
    assert_eq!(find_value(&options, "c"), None);
    assert_eq!(find_value(&options, ""), None);
    assert_eq!(find_value(&Vec::new(), "a"), None);
}

#[test]
fn parse_decodes_by_name() {
    let options = vec![
        data("text", string("hi")),
        data("count", Value::Number(3.0f64.to_bits())),
        data("flag", Value::Boolean(false)),
    ];
    assert_eq!(parse::<String>(&options, "text"), Ok("hi".to_string()));
    assert_eq!(parse::<u8>(&options, "count"), Ok(3));
    assert_eq!(parse::<bool>(&options, "flag"), Ok(false));
    assert_eq!(parse::<Option<bool>>(&options, "flag"), Ok(Some(false)));
    assert_eq!(parse::<bool>(&options, "text"), Err(Error::InvalidType));
    assert_eq!(parse::<String>(&options, "missing"), Err(Error::InvalidType));
    assert_eq!(parse::<Option<String>>(&options, "missing"), Ok(None));
}

#[test]
fn user_type_decodes_through_parse() {
    let options = vec![data("text", string("hi"))];
    assert_eq!(parse::<Shout>(&options, "text"), Ok(Shout("HI".to_string())));
    assert_eq!(parse::<Shout>(&options, "other"), Err(Error::InvalidType));
    assert_eq!(parse::<Option<Shout>>(&options, "other"), Ok(None));
    assert_eq!(parse::<Option<Shout>>(&options, "text"), Ok(Some(Shout("HI".to_string()))));
}

#[test]
fn values_clone_as_they_are() {
    for value in all_values() {
        assert_eq!(value.clone(), value);
    }
    let option = data("who", Value::User(Id::new(77)));
    let copy = option.clone();
    assert_eq!(copy, option);
    assert_eq!(copy.value, Value::User(Id::new(77)));
    assert_ne!(copy.value, Value::User(Id::new(78)));
}
