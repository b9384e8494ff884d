//! Option schemas, raw option values and the conversion contracts between
//! them and native argument types.

use twilight_model::application::command::CommandOptionValue;
use twilight_model::channel::ChannelType;
use twilight_model::id::marker::{ChannelMarker, GenericMarker, RoleMarker, UserMarker};
use twilight_model::id::Id;
use vstd::prelude::*;

verus! {

/// `twilight_model::id::Id`: an identifier tagged with the kind of resource
/// it names. Values are only moved and copied here, never inspected.
#[verifier::external_type_specification]
#[verifier::external_body]
#[verifier::reject_recursive_types(T)]
pub struct ExId<T>(Id<T>);

/// `<Id<T> as Clone>::clone`: the clone of an identifier is that identifier.
pub assume_specification<T>[ <Id<T> as Clone>::clone ](id: &Id<T>) -> (copy: Id<T>)
    ensures
        copy == *id,
;

/// `twilight_model::id::marker::UserMarker`: tag of user identifiers.
#[verifier::external_type_specification]
#[verifier::external_body]
pub struct ExUserMarker(UserMarker);

/// `twilight_model::id::marker::RoleMarker`: tag of role identifiers.
#[verifier::external_type_specification]
#[verifier::external_body]
pub struct ExRoleMarker(RoleMarker);

/// `twilight_model::id::marker::ChannelMarker`: tag of channel identifiers.
#[verifier::external_type_specification]
#[verifier::external_body]
pub struct ExChannelMarker(ChannelMarker);

/// `twilight_model::id::marker::GenericMarker`: tag of identifiers that may
/// name either a user or a role.
#[verifier::external_type_specification]
#[verifier::external_body]
pub struct ExGenericMarker(GenericMarker);

/// `twilight_model::channel::ChannelType`: a kind of channel. Schemas carry
/// these as an allow-list without looking inside.
#[verifier::external_type_specification]
#[verifier::external_body]
pub struct ExChannelType(ChannelType);

/// `twilight_model::application::command::CommandOptionValue`: a numeric
/// bound of an option. Schemas carry these without looking inside.
#[verifier::external_type_specification]
#[verifier::external_body]
pub struct ExCommandOptionValue(CommandOptionValue);

/// Why a raw value could not be turned into a native argument.
#[derive(Debug, Clone, Copy, PartialEq, Eq, Structural)]
pub enum Error {
    /// The value is absent, carries the wrong tag, or matches no choice.
    InvalidType,
}

impl Error {
    /// The text shown for this error.
    pub fn message(&self) -> (text: String)
        ensures
            text@ == "Invalid type for command argument"@,
    {
        String::from_str("Invalid type for command argument")
    }
}

/// The wire kind of an option.
#[derive(Debug, Clone, Copy, PartialEq, Eq, Structural)]
pub enum CommandOptionType {
    String,
    Integer,
    Boolean,
    User,
    Channel,
    Role,
    Mentionable,
    Number,
}

/// One entry of a closed choice list: the name shown and the value sent.
#[derive(Debug, PartialEq, Eq)]
pub struct CommandOptionChoice {
    pub name: String,
    pub value: String,
}

/// Mathematical content of a [`CommandOptionChoice`].
pub ghost struct ChoiceView {
    pub name: Seq<char>,
    pub value: Seq<char>,
}

impl View for CommandOptionChoice {
    type V = ChoiceView;

    open spec fn view(&self) -> ChoiceView {
        ChoiceView { name: self.name@, value: self.value@ }
    }
}

impl Clone for CommandOptionChoice {
    fn clone(&self) -> (copy: Self)
        ensures
            copy@ == self@,
    {
        CommandOptionChoice { name: self.name.clone(), value: self.value.clone() }
    }
}

/// The schema of one argument as it is published.
#[derive(Debug, PartialEq)]
pub struct CommandOption {
    pub autocomplete: Option<bool>,
    pub channel_types: Option<Vec<ChannelType>>,
    pub choices: Option<Vec<CommandOptionChoice>>,
    pub name: Option<String>,
    pub description: Option<String>,
    pub kind: CommandOptionType,
    pub max_length: Option<u16>,
    pub max_value: Option<CommandOptionValue>,
    pub min_length: Option<u16>,
    pub min_value: Option<CommandOptionValue>,
    pub required: bool,
}

/// Mathematical content of a [`CommandOption`].
pub ghost struct CommandOptionView {
    pub autocomplete: Option<bool>,
    pub channel_types: Option<Seq<ChannelType>>,
    pub choices: Option<Seq<ChoiceView>>,
    pub name: Option<Seq<char>>,
    pub description: Option<Seq<char>>,
    pub kind: CommandOptionType,
    pub max_length: Option<u16>,
    pub max_value: Option<CommandOptionValue>,
    pub min_length: Option<u16>,
    pub min_value: Option<CommandOptionValue>,
    pub required: bool,
}

/// The choices of a list, each by its content.
pub open spec fn choice_views(choices: Seq<CommandOptionChoice>) -> Seq<ChoiceView> {
    choices.map_values(|c: CommandOptionChoice| c@)
}

impl View for CommandOption {
    type V = CommandOptionView;

    open spec fn view(&self) -> CommandOptionView {
        CommandOptionView {
            autocomplete: self.autocomplete,
            channel_types: match self.channel_types {
                Some(types) => Some(types@),
                None => None,
            },
            choices: match self.choices {
                Some(choices) => Some(choice_views(choices@)),
                None => None,
            },
            name: match self.name {
                Some(name) => Some(name@),
                None => None,
            },
            description: match self.description {
                Some(description) => Some(description@),
                None => None,
            },
            kind: self.kind,
            max_length: self.max_length,
            max_value: self.max_value,
            min_length: self.min_length,
            min_value: self.min_value,
            required: self.required,
        }
    }
}

/// Copies a list of channel types.
pub(crate) fn clone_channel_types(types: &Vec<ChannelType>) -> (copy: Vec<ChannelType>)
    ensures
        copy@ == types@,
{
    let mut copy: Vec<ChannelType> = Vec::new();
    let mut i: usize = 0;
    while i < types.len()
        invariant
            i <= types.len(),
            copy@ == types@.take(i as int),
        decreases types.len() - i,
    {
        copy.push(types[i]);
        assert(copy@ == types@.take(i + 1));
        i += 1;
    }
    assert(types@.take(i as int) == types@);
    copy
}

/// Copies a list of choices.
fn clone_choices(choices: &Vec<CommandOptionChoice>) -> (copy: Vec<CommandOptionChoice>)
    ensures
        choice_views(copy@) == choice_views(choices@),
{
    let mut copy: Vec<CommandOptionChoice> = Vec::new();
    let mut i: usize = 0;
    while i < choices.len()
        invariant
            i <= choices.len(),
            copy.len() == i,
            forall|j: int| 0 <= j < i ==> copy[j]@ == choices[j]@,
        decreases choices.len() - i,
    {
        copy.push(choices[i].clone());
        i += 1;
    }
    assert(choice_views(copy@) =~= choice_views(choices@));
    copy
}

impl Clone for CommandOption {
    fn clone(&self) -> (copy: Self)
        ensures
            copy@ == self@,
    {
        CommandOption {
            autocomplete: self.autocomplete,
            channel_types: match &self.channel_types {
                Some(types) => Some(clone_channel_types(types)),
                None => None,
            },
            choices: match &self.choices {
                Some(choices) => Some(clone_choices(choices)),
                None => None,
            },
            name: match &self.name {
                Some(name) => Some(name.clone()),
                None => None,
            },
            description: match &self.description {
                Some(description) => Some(description.clone()),
                None => None,
            },
            kind: self.kind,
            max_length: self.max_length,
            max_value: self.max_value,
            min_length: self.min_length,
            min_value: self.min_value,
            required: self.required,
        }
    }
}

impl CommandOptionView {
    /// The schema of a required option of the given kind with nothing else set.
    pub open spec fn new(kind: CommandOptionType) -> CommandOptionView {
        CommandOptionView {
            autocomplete: None,
            channel_types: None,
            choices: None,
            name: None,
            description: None,
            kind,
            max_length: None,
            max_value: None,
            min_length: None,
            min_value: None,
            required: true,
        }
    }

    /// The allow-list after one more channel type was added to it.
    pub open spec fn with_channel_type(self, channel_type: ChannelType) -> CommandOptionView {
        CommandOptionView {
            channel_types: match self.channel_types {
                Some(types) => Some(types.push(channel_type)),
                None => Some(seq![channel_type]),
            },
            ..self
        }
    }
}

impl CommandOption {
    /// A required option of the given kind with no name, description or
    /// constraint.
    pub fn new(kind: CommandOptionType) -> (option: Self)
        ensures
            option@ == CommandOptionView::new(kind),
    {
        CommandOption {
            autocomplete: None,
            channel_types: None,
            choices: None,
            name: None,
            description: None,
            kind,
            max_length: None,
            max_value: None,
            min_length: None,
            min_value: None,
            required: true,
        }
    }

    pub fn autocomplete(self, autocomplete: bool) -> (option: Self)
        ensures
            option@ == (CommandOptionView { autocomplete: Some(autocomplete), ..self@ }),
    {
        let mut option = self;
        option.autocomplete = Some(autocomplete);
        option
    }

    pub fn channel_types(self, channel_types: Vec<ChannelType>) -> (option: Self)
        ensures
            option@ == (CommandOptionView { channel_types: Some(channel_types@), ..self@ }),
    {
        let mut option = self;
        option.channel_types = Some(channel_types);
        option
    }

    /// Adds one channel type to the allow-list, starting the list if there
    /// is none yet.
    pub fn channel_type(self, channel_type: ChannelType) -> (option: Self)
        ensures
            option@ == self@.with_channel_type(channel_type),
    {
        let mut option = self;
        match &mut option.channel_types {
            Some(types) => types.push(channel_type),
            None => {
                let mut types = Vec::new();
                types.push(channel_type);
                option.channel_types = Some(types);
            },
        }
        option
    }

    pub fn choices(self, choices: Vec<CommandOptionChoice>) -> (option: Self)
        ensures
            option@ == (CommandOptionView { choices: Some(choice_views(choices@)), ..self@ }),
    {
        let mut option = self;
        option.choices = Some(choices);
        option
    }

    pub fn max_length(self, max_length: u16) -> (option: Self)
        ensures
            option@ == (CommandOptionView { max_length: Some(max_length), ..self@ }),
    {
        let mut option = self;
        option.max_length = Some(max_length);
        option
    }

    pub fn max_value(self, max_value: CommandOptionValue) -> (option: Self)
        ensures
            option@ == (CommandOptionView { max_value: Some(max_value), ..self@ }),
    {
        let mut option = self;
        option.max_value = Some(max_value);
        option
    }

    pub fn min_length(self, min_length: u16) -> (option: Self)
        ensures
            option@ == (CommandOptionView { min_length: Some(min_length), ..self@ }),
    {
        let mut option = self;
        option.min_length = Some(min_length);
        option
    }

    pub fn min_value(self, min_value: CommandOptionValue) -> (option: Self)
        ensures
            option@ == (CommandOptionView { min_value: Some(min_value), ..self@ }),
    {
        let mut option = self;
        option.min_value = Some(min_value);
        option
    }

    pub fn required(self, required: bool) -> (option: Self)
        ensures
            option@ == (CommandOptionView { required, ..self@ }),
    {
        let mut option = self;
        option.required = required;
        option
    }

    pub fn name(self, name: &str) -> (option: Self)
        ensures
            option@ == (CommandOptionView { name: Some(name@), ..self@ }),
    {
        let mut option = self;
        option.name = Some(String::from_str(name));
        option
    }

    pub fn description(self, description: &str) -> (option: Self)
        ensures
            option@ == (CommandOptionView { description: Some(description@), ..self@ }),
    {
        let mut option = self;
        option.description = Some(String::from_str(description));
        option
    }
}

/// A raw value carried by an invocation, tagged with what it is.
#[derive(Debug, Clone, PartialEq)]
pub enum Value {
    String(String),
    /// A number, held as the bit pattern of its IEEE 754 binary64 form.
    Number(u64),
    Boolean(bool),
    User(Id<UserMarker>),
    Role(Id<RoleMarker>),
    Channel(Id<ChannelMarker>),
    /// An identifier that names either a user or a role.
    Mentionable(Id<GenericMarker>),
    /// The nested path of a subcommand; never the value of an argument.
    SubcommandGroup(Vec<String>),
}

/// One raw argument of an invocation: the option's name and its value.
#[derive(Debug, Clone, PartialEq)]
pub struct CommandDataOption {
    pub name: String,
    pub value: Value,
}

/// The value that a list of raw arguments gives to `name`: that of the last
/// entry so named, if there is one.
pub open spec fn option_value(options: Seq<CommandDataOption>, name: Seq<char>) -> Option<Value>
    decreases options.len(),
{
    if options.len() == 0 {
        None
    } else if options.last().name@ == name {
        Some(options.last().value)
    } else {
        option_value(options.drop_last(), name)
    }
}

/// The value behind an optional reference.
pub open spec fn value_of(data: Option<&Value>) -> Option<Value> {
    match data {
        Some(value) => Some(*value),
        None => None,
    }
}

/// Describes a native type as an option schema.
pub trait ToOption {
    /// Whether `option` is the schema of the type. An implementation that
    /// does not say accepts every schema.
    open spec fn describes(option: CommandOptionView) -> bool {
        true
    }

    /// The canonical schema of the type.
    fn to_option() -> (option: CommandOption)
        ensures
            Self::describes(option@),
    ;
}

/// Decodes a value that is present.
pub trait ArgumentConverter: Sized {
    /// Whether `result` is an outcome of decoding `data`. An implementation
    /// that does not say accepts every outcome.
    open spec fn converts(data: Value, result: Result<Self, Error>) -> bool {
        true
    }

    fn convert(data: &Value) -> (result: Result<Self, Error>)
        ensures
            Self::converts(*data, result),
    ;
}

/// Decodes a value that may be absent.
pub trait OptionalArgumentConverter: Sized {
    /// Whether `result` is an outcome of decoding `data`. An implementation
    /// that does not say accepts every outcome.
    open spec fn converts(data: Option<Value>, result: Result<Self, Error>) -> bool {
        true
    }

    fn convert(data: Option<&Value>) -> (result: Result<Self, Error>)
        ensures
            Self::converts(value_of(data), result),
    ;
}

/// An optional argument accepts absence as `None` and otherwise decodes as
/// the type it wraps.
impl<T: OptionalArgumentConverter> OptionalArgumentConverter for Option<T> {
    open spec fn converts(data: Option<Value>, result: Result<Self, Error>) -> bool {
        match data {
            Some(_) => match result {
                Ok(Some(value)) => T::converts(data, Ok(value)),
                Ok(None) => false,
                Err(error) => T::converts(data, Err(error)),
            },
            None => result == Ok::<Self, Error>(None),
        }
    }

    fn convert(data: Option<&Value>) -> (result: Result<Self, Error>) {
        match data {
            Some(_) => match T::convert(data) {
                Ok(value) => Ok(Some(value)),
                Err(error) => Err(error),
            },
            None => Ok(None),
        }
    }
}

/// A bare argument is required: absence is an error.
impl<T: ArgumentConverter> OptionalArgumentConverter for T {
    open spec fn converts(data: Option<Value>, result: Result<Self, Error>) -> bool {
        match data {
            Some(value) => <T as ArgumentConverter>::converts(value, result),
            None => result == Err::<Self, Error>(Error::InvalidType),
        }
    }

    fn convert(data: Option<&Value>) -> (result: Result<Self, Error>) {
        match data {
            Some(value) => <T as ArgumentConverter>::convert(value),
            None => Err(Error::InvalidType),
        }
    }
}

/// An optional type has the schema of the type it wraps, but is not required.
impl<T: ToOption> ToOption for Option<T> {
    open spec fn describes(option: CommandOptionView) -> bool {
        exists|inner: CommandOptionView|
            T::describes(inner) && option == (CommandOptionView { required: false, ..inner })
    }

    fn to_option() -> (option: CommandOption) {
        let inner = T::to_option();
        inner.required(false)
    }
}

/// An optional argument without a value decodes to `None`, whatever type it
/// wraps.
pub proof fn lemma_absent_optional_decodes_to_none<T: OptionalArgumentConverter>(
    result: Result<Option<T>, Error>,
)
    requires
        <Option<T> as OptionalArgumentConverter>::converts(None, result),
    ensures
        result == Ok::<Option<T>, Error>(None),
{
}

/// A required argument without a value fails to decode, whatever its type.
pub proof fn lemma_absent_required_is_invalid<T: ArgumentConverter>(result: Result<T, Error>)
    requires
        <T as OptionalArgumentConverter>::converts(None, result),
    ensures
        result == Err::<T, Error>(Error::InvalidType),
{
}

/// An argument that the raw arguments do not name has no value.
pub proof fn lemma_unnamed_option_has_no_value(options: Seq<CommandDataOption>, name: Seq<char>)
    requires
        forall|i: int| 0 <= i < options.len() ==> (#[trigger] options[i]).name@ != name,
    ensures
        option_value(options, name) is None,
    decreases options.len(),
{
    if options.len() > 0 {
        assert(options.last() == options[options.len() - 1]);
        assert forall|i: int| 0 <= i < options.drop_last().len() implies (
        #[trigger] options.drop_last()[i]).name@ != name by {
            assert(options.drop_last()[i] == options[i]);
        }
        lemma_unnamed_option_has_no_value(options.drop_last(), name);
    }
}

/// Finds the value that the raw arguments give to `name`.
pub fn find_value<'a>(options: &'a Vec<CommandDataOption>, name: &str) -> (value: Option<&'a Value>)
    ensures
        value_of(value) == option_value(options@, name@),
{
    let key = String::from_str(name);
    let mut i: usize = options.len();
    assert(options@.take(i as int) == options@);
    while i > 0
        invariant
            i <= options.len(),
            key@ == name@,
            option_value(options@, name@) == option_value(options@.take(i as int), name@),
        decreases i,
    {
        proof {
            let prefix = options@.take(i as int);
            assert(prefix.last() == options@[i - 1]);
            assert(prefix.drop_last() == options@.take(i - 1));
        }
        if options[i - 1].name == key {
            return Some(&options[i - 1].value);
        }
        i -= 1;
    }
    proof {
        assert(options@.take(0).len() == 0);
    }
    None
}

/// Decodes the argument called `name` from the raw arguments of an
/// invocation.
pub fn parse<T: OptionalArgumentConverter>(options: &Vec<CommandDataOption>, name: &str) -> (result:
    Result<T, Error>)
    ensures
        T::converts(option_value(options@, name@), result),
{
    T::convert(find_value(options, name))
}

} // verus!
