//! Declarations of command fields: how the option of a field follows from
//! what is written at the field.

use crate::arguments::{clone_channel_types, CommandOption, CommandOptionView};
use twilight_model::channel::ChannelType;
use vstd::prelude::*;
use vstd::string::StringExecFns;

verus! {

/// A generic argument of a path segment.
#[derive(Debug)]
pub enum TypeArgument {
    /// A type that is a path, by the identifiers of its segments.
    Path(Vec<String>),
    /// Anything else: a lifetime, a constant, a type that is no path.
    Other,
}

/// One segment of a type path: its identifier and the generic arguments
/// that follow it in angle brackets, if any do.
#[derive(Debug)]
pub struct PathSegment {
    pub ident: String,
    pub arguments: Vec<TypeArgument>,
}

/// The type of a field, as far as declarations look at it.
#[derive(Debug)]
pub enum FieldType {
    /// A type that is a path, by its segments.
    Path(Vec<PathSegment>),
    /// Any other type.
    Other,
}

/// What is written at one field of a command.
#[derive(Debug)]
pub struct OptionReceiver {
    /// The identifier of the field, where it has one.
    pub ident: Option<String>,
    /// The type of the field.
    pub ty: FieldType,
    /// The name of the option, where it is not that of the field.
    pub name: Option<String>,
    /// The description of the option.
    pub description: Option<String>,
    /// For channel options, the kinds of channel that are accepted.
    pub channel_types: Option<Vec<ChannelType>>,
}

/// Why a field has no option name.
#[derive(Debug, Clone, Copy, PartialEq, Eq, Structural)]
pub enum GetNameError {
    /// Neither a name nor an identifier is given.
    MissingFieldName,
}

/// Why a field cannot be assigned from the raw arguments.
#[derive(Debug, Clone, Copy, PartialEq, Eq, Structural)]
pub enum FieldNameError {
    GetNameError(GetNameError),
    /// The field has no identifier.
    MissingIdent,
}

/// Why a field has no option.
#[derive(Debug, Clone, Copy, PartialEq, Eq, Structural)]
pub enum FieldOptionError {
    GetNameError(GetNameError),
    /// Channel types are given for a field that is no channel identifier.
    ChannelTypesOnOtherType,
}

impl GetNameError {
    /// The text shown for this error.
    pub fn message(&self) -> (text: String)
        ensures
            text@ == "Unable to determine field name for option"@,
    {
        String::from_str("Unable to determine field name for option")
    }
}

impl FieldNameError {
    /// The text shown for this error.
    pub fn message(&self) -> (text: String)
        ensures
            text@ == match *self {
                FieldNameError::GetNameError(_) => "Unable to determine field name for option"@,
                FieldNameError::MissingIdent => "Field is missing an identifier"@,
            },
    {
        match self {
            FieldNameError::GetNameError(error) => error.message(),
            FieldNameError::MissingIdent => String::from_str("Field is missing an identifier"),
        }
    }
}

impl FieldOptionError {
    /// The text shown for this error.
    pub fn message(&self) -> (text: String)
        ensures
            text@ == match *self {
                FieldOptionError::GetNameError(_) => "Unable to determine field name for option"@,
                FieldOptionError::ChannelTypesOnOtherType =>
                    "channel_types can only be specified for fields of type Id<ChannelMarker>"@,
            },
    {
        match self {
            FieldOptionError::GetNameError(error) => error.message(),
            FieldOptionError::ChannelTypesOnOtherType => String::from_str(
                "channel_types can only be specified for fields of type Id<ChannelMarker>",
            ),
        }
    }
}

/// The description of what was declared without one.
pub open spec fn default_description() -> Seq<char> {
    "No description provided"@
}

/// The name of the option of a field: the name given, else the identifier.
pub open spec fn option_name(field: OptionReceiver) -> Option<Seq<char>> {
    match field.name {
        Some(name) => Some(name@),
        None => match field.ident {
            Some(ident) => Some(ident@),
            None => None,
        },
    }
}

/// Whether a type is written as an identifier of channels: a path whose last
/// segment is `Id`, with a first generic argument that is a path whose last
/// segment is `ChannelMarker`.
pub open spec fn is_channel_id(ty: FieldType) -> bool {
    &&& ty matches FieldType::Path(segments)
    &&& segments@.len() > 0
    &&& segments@.last().ident@ == "Id"@
    &&& segments@.last().arguments@.len() > 0
    &&& segments@.last().arguments@[0] matches TypeArgument::Path(inner)
    &&& inner@.len() > 0
    &&& inner@.last()@ == "ChannelMarker"@
}

/// The description of a declaration: the one given, else the default.
pub open spec fn description_or_default(description: Option<String>) -> Seq<char> {
    match description {
        Some(description) => description@,
        None => default_description(),
    }
}

/// The option of a field, made from the schema of the field's type.
pub open spec fn option_of_field(field: OptionReceiver, schema: CommandOptionView) -> Result<
    CommandOptionView,
    FieldOptionError,
> {
    match option_name(field) {
        None => Err(FieldOptionError::GetNameError(GetNameError::MissingFieldName)),
        Some(name) => if field.channel_types is Some && !is_channel_id(field.ty) {
            Err(FieldOptionError::ChannelTypesOnOtherType)
        } else {
            let named = CommandOptionView {
                name: Some(name),
                description: Some(description_or_default(field.description)),
                ..schema
            };
            Ok(
                match field.channel_types {
                    Some(types) => CommandOptionView { channel_types: Some(types@), ..named },
                    None => named,
                },
            )
        },
    }
}

/// Gets the name of the option of a field.
pub fn get_name(field: &OptionReceiver) -> (name: Result<String, GetNameError>)
    ensures
        match name {
            Ok(name) => option_name(*field) == Some(name@),
            Err(error) => option_name(*field) is None && error == GetNameError::MissingFieldName,
        },
{
    if let Some(name) = &field.name {
        Ok(name.clone())
    } else if let Some(ident) = &field.ident {
        Ok(ident.clone())
    } else {
        Err(GetNameError::MissingFieldName)
    }
}

/// Gets the name of the option of a field together with the identifier of
/// the field that is assigned from it.
pub fn field_name(field: &OptionReceiver) -> (names: Result<(String, String), FieldNameError>)
    ensures
        match names {
            Ok((name, ident)) => option_name(*field) == Some(name@) && (field.ident matches Some(
                declared,
            ) && declared@ == ident@),
            Err(error) => error == match option_name(*field) {
                None => FieldNameError::GetNameError(GetNameError::MissingFieldName),
                Some(_) => FieldNameError::MissingIdent,
            } && (option_name(*field) is None || field.ident is None),
        },
{
    let name = match get_name(field) {
        Ok(name) => name,
        Err(error) => {
            return Err(FieldNameError::GetNameError(error));
        },
    };
    match &field.ident {
        Some(ident) => Ok((name, ident.clone())),
        None => Err(FieldNameError::MissingIdent),
    }
}

/// Tells whether a type is written as an identifier of channels.
pub fn validate_channel_type(ty: &FieldType) -> (valid: bool)
    ensures
        valid == is_channel_id(*ty),
{
    match ty {
        FieldType::Path(segments) => {
            if segments.len() == 0 {
                return false;
            }
            let segment = &segments[segments.len() - 1];
            if segment.ident != String::from_str("Id") {
                return false;
            }
            if segment.arguments.len() == 0 {
                return false;
            }
            match &segment.arguments[0] {
                TypeArgument::Path(inner) => {
                    if inner.len() == 0 {
                        return false;
                    }
                    inner[inner.len() - 1] == String::from_str("ChannelMarker")
                },
                TypeArgument::Other => false,
            }
        },
        FieldType::Other => false,
    }
}

/// Makes the option of a field from the schema of the field's type: the
/// schema is given the name and the description of the field, and the
/// channel types where the field is an identifier of channels.
pub fn field_option(field: &OptionReceiver, schema: CommandOption) -> (option: Result<
    CommandOption,
    FieldOptionError,
>)
    ensures
        match option {
            Ok(option) => option_of_field(*field, schema@) == Ok::<_, FieldOptionError>(option@),
            Err(error) => option_of_field(*field, schema@) == Err::<CommandOptionView, _>(error),
        },
{
    let name = match get_name(field) {
        Ok(name) => name,
        Err(error) => {
            return Err(FieldOptionError::GetNameError(error));
        },
    };
    if field.channel_types.is_some() && !validate_channel_type(&field.ty) {
        return Err(FieldOptionError::ChannelTypesOnOtherType);
    }
    let named = match &field.description {
        Some(description) => schema.name(name.as_str()).description(description.as_str()),
        None => schema.name(name.as_str()).description("No description provided"),
    };
    match &field.channel_types {
        Some(types) => Ok(named.channel_types(clone_channel_types(types))),
        None => Ok(named),
    }
}

/// The description of a command: the one declared, else the default.
pub fn command_description(description: Option<&String>) -> (text: String)
    ensures
        text@ == match description {
            Some(description) => description@,
            None => default_description(),
        },
{
    match description {
        Some(description) => description.clone(),
        None => String::from_str("No description provided"),
    }
}

} // verus!
