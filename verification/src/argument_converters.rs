//! Conversions of the built-in argument types: text, truth values, single
//! characters, integers and the four kinds of identifier.

use crate::arguments::{
    ArgumentConverter, CommandOption, CommandOptionType, CommandOptionView, Error, ToOption, Value,
};
use crate::number::{clamp, number_to_signed, number_to_unsigned, truncated};
use twilight_model::id::marker::{ChannelMarker, GenericMarker, RoleMarker, UserMarker};
use twilight_model::id::Id;
use vstd::prelude::*;
use vstd::string::StrSliceExecFns;

verus! {

/// Text decodes from a string value, unchanged.
impl ArgumentConverter for String {
    open spec fn converts(data: Value, result: Result<Self, Error>) -> bool {
        result == match data {
            Value::String(value) => Ok::<String, Error>(value),
            _ => Err(Error::InvalidType),
        }
    }

    fn convert(data: &Value) -> (result: Result<Self, Error>) {
        if let Value::String(value) = data {
            Ok(value.clone())
        } else {
            Err(Error::InvalidType)
        }
    }
}

impl ToOption for String {
    open spec fn describes(option: CommandOptionView) -> bool {
        option == CommandOptionView::new(CommandOptionType::String)
    }

    fn to_option() -> (option: CommandOption) {
        CommandOption::new(CommandOptionType::String)
    }
}

/// A truth value decodes from a boolean value.
impl ArgumentConverter for bool {
    open spec fn converts(data: Value, result: Result<Self, Error>) -> bool {
        result == match data {
            Value::Boolean(value) => Ok::<bool, Error>(value),
            _ => Err(Error::InvalidType),
        }
    }

    fn convert(data: &Value) -> (result: Result<Self, Error>) {
        if let Value::Boolean(value) = data {
            Ok(*value)
        } else {
            Err(Error::InvalidType)
        }
    }
}

impl ToOption for bool {
    open spec fn describes(option: CommandOptionView) -> bool {
        option == CommandOptionView::new(CommandOptionType::Boolean)
    }

    fn to_option() -> (option: CommandOption) {
        CommandOption::new(CommandOptionType::Boolean)
    }
}

/// A character decodes from a string value as its first character; an empty
/// string has none.
impl ArgumentConverter for char {
    open spec fn converts(data: Value, result: Result<Self, Error>) -> bool {
        result == match data {
            Value::String(value) => if value@.len() > 0 {
                Ok::<char, Error>(value@[0])
            } else {
                Err(Error::InvalidType)
            },
            _ => Err(Error::InvalidType),
        }
    }

    fn convert(data: &Value) -> (result: Result<Self, Error>) {
        if let Value::String(value) = data {
            let text = value.as_str();
            if text.unicode_len() > 0 {
                Ok(text.get_char(0))
            } else {
                Err(Error::InvalidType)
            }
        } else {
            Err(Error::InvalidType)
        }
    }
}

/// A character is published as a string of at most one character.
impl ToOption for char {
    open spec fn describes(option: CommandOptionView) -> bool {
        option == (CommandOptionView {
            max_length: Some(1u16),
            ..CommandOptionView::new(CommandOptionType::String)
        })
    }

    fn to_option() -> (option: CommandOption) {
        CommandOption::new(CommandOptionType::String).max_length(1)
    }
}

/// A number decodes to `i8` without its fractional part, held to the range
/// of the type.
impl ArgumentConverter for i8 {
    open spec fn converts(data: Value, result: Result<Self, Error>) -> bool {
        result == match data {
            Value::Number(bits) => Ok::<i8, Error>(
                clamp(truncated(bits), i8::MIN as int, i8::MAX as int) as i8,
            ),
            _ => Err(Error::InvalidType),
        }
    }

    fn convert(data: &Value) -> (result: Result<Self, Error>) {
        if let Value::Number(bits) = data {
            Ok(number_to_signed(*bits, i8::MIN as i128, i8::MAX as i128) as i8)
        } else {
            Err(Error::InvalidType)
        }
    }
}

impl ToOption for i8 {
    open spec fn describes(option: CommandOptionView) -> bool {
        option == CommandOptionView::new(CommandOptionType::Integer)
    }

    fn to_option() -> (option: CommandOption) {
        CommandOption::new(CommandOptionType::Integer)
    }
}

/// A number decodes to `i16` without its fractional part, held to the range
/// of the type.
impl ArgumentConverter for i16 {
    open spec fn converts(data: Value, result: Result<Self, Error>) -> bool {
        result == match data {
            Value::Number(bits) => Ok::<i16, Error>(
                clamp(truncated(bits), i16::MIN as int, i16::MAX as int) as i16,
            ),
            _ => Err(Error::InvalidType),
        }
    }

    fn convert(data: &Value) -> (result: Result<Self, Error>) {
        if let Value::Number(bits) = data {
            Ok(number_to_signed(*bits, i16::MIN as i128, i16::MAX as i128) as i16)
        } else {
            Err(Error::InvalidType)
        }
    }
}

impl ToOption for i16 {
    open spec fn describes(option: CommandOptionView) -> bool {
        option == CommandOptionView::new(CommandOptionType::Integer)
    }

    fn to_option() -> (option: CommandOption) {
        CommandOption::new(CommandOptionType::Integer)
    }
}

/// A number decodes to `i32` without its fractional part, held to the range
/// of the type.
impl ArgumentConverter for i32 {
    open spec fn converts(data: Value, result: Result<Self, Error>) -> bool {
        result == match data {
            Value::Number(bits) => Ok::<i32, Error>(
                clamp(truncated(bits), i32::MIN as int, i32::MAX as int) as i32,
            ),
            _ => Err(Error::InvalidType),
        }
    }

    fn convert(data: &Value) -> (result: Result<Self, Error>) {
        if let Value::Number(bits) = data {
            Ok(number_to_signed(*bits, i32::MIN as i128, i32::MAX as i128) as i32)
        } else {
            Err(Error::InvalidType)
        }
    }
}

impl ToOption for i32 {
    open spec fn describes(option: CommandOptionView) -> bool {
        option == CommandOptionView::new(CommandOptionType::Integer)
    }

    fn to_option() -> (option: CommandOption) {
        CommandOption::new(CommandOptionType::Integer)
    }
}

/// A number decodes to `i64` without its fractional part, held to the range
/// of the type.
impl ArgumentConverter for i64 {
    open spec fn converts(data: Value, result: Result<Self, Error>) -> bool {
        result == match data {
            Value::Number(bits) => Ok::<i64, Error>(
                clamp(truncated(bits), i64::MIN as int, i64::MAX as int) as i64,
            ),
            _ => Err(Error::InvalidType),
        }
    }

    fn convert(data: &Value) -> (result: Result<Self, Error>) {
        if let Value::Number(bits) = data {
            Ok(number_to_signed(*bits, i64::MIN as i128, i64::MAX as i128) as i64)
        } else {
            Err(Error::InvalidType)
        }
    }
}

impl ToOption for i64 {
    open spec fn describes(option: CommandOptionView) -> bool {
        option == CommandOptionView::new(CommandOptionType::Integer)
    }

    fn to_option() -> (option: CommandOption) {
        CommandOption::new(CommandOptionType::Integer)
    }
}

/// A number decodes to `i128` without its fractional part, held to the range
/// of the type.
impl ArgumentConverter for i128 {
    open spec fn converts(data: Value, result: Result<Self, Error>) -> bool {
        result == match data {
            Value::Number(bits) => Ok::<i128, Error>(
                clamp(truncated(bits), i128::MIN as int, i128::MAX as int) as i128,
            ),
            _ => Err(Error::InvalidType),
        }
    }

    fn convert(data: &Value) -> (result: Result<Self, Error>) {
        if let Value::Number(bits) = data {
            Ok(number_to_signed(*bits, i128::MIN as i128, i128::MAX as i128) as i128)
        } else {
            Err(Error::InvalidType)
        }
    }
}

impl ToOption for i128 {
    open spec fn describes(option: CommandOptionView) -> bool {
        option == CommandOptionView::new(CommandOptionType::Integer)
    }

    fn to_option() -> (option: CommandOption) {
        CommandOption::new(CommandOptionType::Integer)
    }
}

/// A number decodes to `isize` without its fractional part, held to the range
/// of the type.
impl ArgumentConverter for isize {
    open spec fn converts(data: Value, result: Result<Self, Error>) -> bool {
        result == match data {
            Value::Number(bits) => Ok::<isize, Error>(
                clamp(truncated(bits), isize::MIN as int, isize::MAX as int) as isize,
            ),
            _ => Err(Error::InvalidType),
        }
    }

    fn convert(data: &Value) -> (result: Result<Self, Error>) {
        if let Value::Number(bits) = data {
            Ok(number_to_signed(*bits, isize::MIN as i128, isize::MAX as i128) as isize)
        } else {
            Err(Error::InvalidType)
        }
    }
}

impl ToOption for isize {
    open spec fn describes(option: CommandOptionView) -> bool {
        option == CommandOptionView::new(CommandOptionType::Integer)
    }

    fn to_option() -> (option: CommandOption) {
        CommandOption::new(CommandOptionType::Integer)
    }
}

/// A number decodes to `u8` without its fractional part, held to the range
/// of the type.
impl ArgumentConverter for u8 {
    open spec fn converts(data: Value, result: Result<Self, Error>) -> bool {
        result == match data {
            Value::Number(bits) => Ok::<u8, Error>(
                clamp(truncated(bits), 0, u8::MAX as int) as u8,
            ),
            _ => Err(Error::InvalidType),
        }
    }

    fn convert(data: &Value) -> (result: Result<Self, Error>) {
        if let Value::Number(bits) = data {
            Ok(number_to_unsigned(*bits, u8::MAX as u128) as u8)
        } else {
            Err(Error::InvalidType)
        }
    }
}

impl ToOption for u8 {
    open spec fn describes(option: CommandOptionView) -> bool {
        option == CommandOptionView::new(CommandOptionType::Integer)
    }

    fn to_option() -> (option: CommandOption) {
        CommandOption::new(CommandOptionType::Integer)
    }
}

/// A number decodes to `u16` without its fractional part, held to the range
/// of the type.
impl ArgumentConverter for u16 {
    open spec fn converts(data: Value, result: Result<Self, Error>) -> bool {
        result == match data {
            Value::Number(bits) => Ok::<u16, Error>(
                clamp(truncated(bits), 0, u16::MAX as int) as u16,
            ),
            _ => Err(Error::InvalidType),
        }
    }

    fn convert(data: &Value) -> (result: Result<Self, Error>) {
        if let Value::Number(bits) = data {
            Ok(number_to_unsigned(*bits, u16::MAX as u128) as u16)
        } else {
            Err(Error::InvalidType)
        }
    }
}

impl ToOption for u16 {
    open spec fn describes(option: CommandOptionView) -> bool {
        option == CommandOptionView::new(CommandOptionType::Integer)
    }

    fn to_option() -> (option: CommandOption) {
        CommandOption::new(CommandOptionType::Integer)
    }
}

/// A number decodes to `u32` without its fractional part, held to the range
/// of the type.
impl ArgumentConverter for u32 {
    open spec fn converts(data: Value, result: Result<Self, Error>) -> bool {
        result == match data {
            Value::Number(bits) => Ok::<u32, Error>(
                clamp(truncated(bits), 0, u32::MAX as int) as u32,
            ),
            _ => Err(Error::InvalidType),
        }
    }

    fn convert(data: &Value) -> (result: Result<Self, Error>) {
        if let Value::Number(bits) = data {
            Ok(number_to_unsigned(*bits, u32::MAX as u128) as u32)
        } else {
            Err(Error::InvalidType)
        }
    }
}

impl ToOption for u32 {
    open spec fn describes(option: CommandOptionView) -> bool {
        option == CommandOptionView::new(CommandOptionType::Integer)
    }

    fn to_option() -> (option: CommandOption) {
        CommandOption::new(CommandOptionType::Integer)
    }
}

/// A number decodes to `u64` without its fractional part, held to the range
/// of the type.
impl ArgumentConverter for u64 {
    open spec fn converts(data: Value, result: Result<Self, Error>) -> bool {
        result == match data {
            Value::Number(bits) => Ok::<u64, Error>(
                clamp(truncated(bits), 0, u64::MAX as int) as u64,
            ),
            _ => Err(Error::InvalidType),
        }
    }

    fn convert(data: &Value) -> (result: Result<Self, Error>) {
        if let Value::Number(bits) = data {
            Ok(number_to_unsigned(*bits, u64::MAX as u128) as u64)
        } else {
            Err(Error::InvalidType)
        }
    }
}

impl ToOption for u64 {
    open spec fn describes(option: CommandOptionView) -> bool {
        option == CommandOptionView::new(CommandOptionType::Integer)
    }

    fn to_option() -> (option: CommandOption) {
        CommandOption::new(CommandOptionType::Integer)
    }
}

/// A number decodes to `u128` without its fractional part, held to the range
/// of the type.
impl ArgumentConverter for u128 {
    open spec fn converts(data: Value, result: Result<Self, Error>) -> bool {
        result == match data {
            Value::Number(bits) => Ok::<u128, Error>(
                clamp(truncated(bits), 0, u128::MAX as int) as u128,
            ),
            _ => Err(Error::InvalidType),
        }
    }

    fn convert(data: &Value) -> (result: Result<Self, Error>) {
        if let Value::Number(bits) = data {
            Ok(number_to_unsigned(*bits, u128::MAX as u128) as u128)
        } else {
            Err(Error::InvalidType)
        }
    }
}

impl ToOption for u128 {
    open spec fn describes(option: CommandOptionView) -> bool {
        option == CommandOptionView::new(CommandOptionType::Integer)
    }

    fn to_option() -> (option: CommandOption) {
        CommandOption::new(CommandOptionType::Integer)
    }
}

/// A number decodes to `usize` without its fractional part, held to the range
/// of the type.
impl ArgumentConverter for usize {
    open spec fn converts(data: Value, result: Result<Self, Error>) -> bool {
        result == match data {
            Value::Number(bits) => Ok::<usize, Error>(
                clamp(truncated(bits), 0, usize::MAX as int) as usize,
            ),
            _ => Err(Error::InvalidType),
        }
    }

    fn convert(data: &Value) -> (result: Result<Self, Error>) {
        if let Value::Number(bits) = data {
            Ok(number_to_unsigned(*bits, usize::MAX as u128) as usize)
        } else {
            Err(Error::InvalidType)
        }
    }
}

impl ToOption for usize {
    open spec fn describes(option: CommandOptionView) -> bool {
        option == CommandOptionView::new(CommandOptionType::Integer)
    }

    fn to_option() -> (option: CommandOption) {
        CommandOption::new(CommandOptionType::Integer)
    }
}

/// A user identifier decodes from a value of its own tag, unchanged.
impl ArgumentConverter for Id<UserMarker> {
    open spec fn converts(data: Value, result: Result<Self, Error>) -> bool {
        result == match data {
            Value::User(id) => Ok::<Id<UserMarker>, Error>(id),
            _ => Err(Error::InvalidType),
        }
    }

    fn convert(data: &Value) -> (result: Result<Self, Error>) {
        if let Value::User(id) = data {
            Ok(*id)
        } else {
            Err(Error::InvalidType)
        }
    }
}

impl ToOption for Id<UserMarker> {
    open spec fn describes(option: CommandOptionView) -> bool {
        option == CommandOptionView::new(CommandOptionType::User)
    }

    fn to_option() -> (option: CommandOption) {
        CommandOption::new(CommandOptionType::User)
    }
}

/// A role identifier decodes from a value of its own tag, unchanged.
impl ArgumentConverter for Id<RoleMarker> {
    open spec fn converts(data: Value, result: Result<Self, Error>) -> bool {
        result == match data {
            Value::Role(id) => Ok::<Id<RoleMarker>, Error>(id),
            _ => Err(Error::InvalidType),
        }
    }

    fn convert(data: &Value) -> (result: Result<Self, Error>) {
        if let Value::Role(id) = data {
            Ok(*id)
        } else {
            Err(Error::InvalidType)
        }
    }
}

impl ToOption for Id<RoleMarker> {
    open spec fn describes(option: CommandOptionView) -> bool {
        option == CommandOptionView::new(CommandOptionType::Role)
    }

    fn to_option() -> (option: CommandOption) {
        CommandOption::new(CommandOptionType::Role)
    }
}

/// A channel identifier decodes from a value of its own tag, unchanged.
impl ArgumentConverter for Id<ChannelMarker> {
    open spec fn converts(data: Value, result: Result<Self, Error>) -> bool {
        result == match data {
            Value::Channel(id) => Ok::<Id<ChannelMarker>, Error>(id),
            _ => Err(Error::InvalidType),
        }
    }

    fn convert(data: &Value) -> (result: Result<Self, Error>) {
        if let Value::Channel(id) = data {
            Ok(*id)
        } else {
            Err(Error::InvalidType)
        }
    }
}

impl ToOption for Id<ChannelMarker> {
    open spec fn describes(option: CommandOptionView) -> bool {
        option == CommandOptionView::new(CommandOptionType::Channel)
    }

    fn to_option() -> (option: CommandOption) {
        CommandOption::new(CommandOptionType::Channel)
    }
}

/// An identifier of a user or a role decodes from a value of its own tag, unchanged.
impl ArgumentConverter for Id<GenericMarker> {
    open spec fn converts(data: Value, result: Result<Self, Error>) -> bool {
        result == match data {
            Value::Mentionable(id) => Ok::<Id<GenericMarker>, Error>(id),
            _ => Err(Error::InvalidType),
        }
    }

    fn convert(data: &Value) -> (result: Result<Self, Error>) {
        if let Value::Mentionable(id) = data {
            Ok(*id)
        } else {
            Err(Error::InvalidType)
        }
    }
}

impl ToOption for Id<GenericMarker> {
    open spec fn describes(option: CommandOptionView) -> bool {
        option == CommandOptionView::new(CommandOptionType::Mentionable)
    }

    fn to_option() -> (option: CommandOption) {
        CommandOption::new(CommandOptionType::Mentionable)
    }
}

} // verus!
