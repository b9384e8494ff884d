//! Closed choice lists: the declaration of an enumerated argument type, the
//! schema it is published as, and the decoding of a raw value to one of its
//! variants.

use crate::arguments::{
    choice_views, ChoiceView, CommandOption, CommandOptionChoice, CommandOptionType,
    CommandOptionView, Error, Value,
};
use crate::error::SchemaError;
use vstd::prelude::*;
use vstd::string::StringExecFns;

verus! {

/// The largest number of choices that one list may hold.
pub const MAX_CHOICES: usize = 25;

/// One variant of an enumerated type as it is declared: its identifier, and
/// the name and the value it may be given in place of the identifier.
#[derive(Debug)]
pub struct ChoiceVariant {
    pub ident: String,
    pub name: Option<String>,
    pub value: Option<String>,
}

/// Mathematical content of a [`ChoiceVariant`].
pub ghost struct ChoiceVariantView {
    pub ident: Seq<char>,
    pub name: Option<Seq<char>>,
    pub value: Option<Seq<char>>,
}

impl View for ChoiceVariant {
    type V = ChoiceVariantView;

    open spec fn view(&self) -> ChoiceVariantView {
        ChoiceVariantView {
            ident: self.ident@,
            name: match self.name {
                Some(name) => Some(name@),
                None => None,
            },
            value: match self.value {
                Some(value) => Some(value@),
                None => None,
            },
        }
    }
}

/// The choice that a variant stands for: where no name or no value is
/// given, the identifier takes its place.
pub open spec fn choice_of(variant: ChoiceVariantView) -> ChoiceView {
    ChoiceView {
        name: match variant.name {
            Some(name) => name,
            None => variant.ident,
        },
        value: match variant.value {
            Some(value) => value,
            None => variant.ident,
        },
    }
}

/// The choices that a list of variants stands for, in their order.
pub open spec fn choices_of(variants: Seq<ChoiceVariant>) -> Seq<ChoiceView> {
    variants.map_values(|variant: ChoiceVariant| choice_of(variant@))
}

/// Whether no two choices share a value.
pub open spec fn distinct_values(choices: Seq<ChoiceView>) -> bool {
    forall|i: int, j: int|
        0 <= i < j < choices.len() ==> (#[trigger] choices[i]).value != (#[trigger] choices[j]).value
}

/// Whether a list of choices can be published: it is short enough, and its
/// values are distinct.
pub open spec fn valid_choices(choices: Seq<ChoiceView>) -> bool {
    choices.len() <= MAX_CHOICES && distinct_values(choices)
}

/// The error that keeps a list of choices from being published: its length
/// is judged first, then its values.
pub open spec fn choices_error(choices: Seq<ChoiceView>) -> Option<SchemaError> {
    if choices.len() > MAX_CHOICES {
        Some(SchemaError::TooManyChoices)
    } else if !distinct_values(choices) {
        Some(SchemaError::DuplicateChoiceValue)
    } else {
        None
    }
}

/// A list of more than [`MAX_CHOICES`] choices cannot be published, one of at
/// most that many with distinct values can, and one in which two choices
/// share a value cannot, however short it is.
pub proof fn lemma_choice_limits(choices: Seq<ChoiceView>)
    ensures
        choices.len() > MAX_CHOICES ==> choices_error(choices) is Some,
        choices.len() <= MAX_CHOICES && distinct_values(choices) ==> choices_error(choices) is None,
        !distinct_values(choices) ==> choices_error(choices) is Some,
        choices_error(choices) is None <==> valid_choices(choices),
{
}

/// Whether the value of the choice at `i` occurs among the choices before it.
pub open spec fn repeats(choices: Seq<ChoiceView>, i: int) -> bool {
    exists|j: int| 0 <= j < i && (#[trigger] choices[j]).value == choices[i].value
}

/// Values are distinct exactly when no choice repeats the value of one
/// before it.
pub proof fn lemma_distinct_values(choices: Seq<ChoiceView>)
    ensures
        distinct_values(choices) <==> forall|i: int| 0 <= i < choices.len() ==> !repeats(choices, i),
{
    if distinct_values(choices) {
        assert forall|i: int| 0 <= i < choices.len() implies !repeats(choices, i) by {
            if repeats(choices, i) {
                let j = choose|j: int| 0 <= j < i && (#[trigger] choices[j]).value == choices[i].value;
                assert(choices[j].value != choices[i].value);
            }
        }
    }
    if forall|i: int| 0 <= i < choices.len() ==> !repeats(choices, i) {
        assert forall|a: int, b: int| 0 <= a < b < choices.len() implies (#[trigger] choices[a]).value
            != (#[trigger] choices[b]).value by {
            assert(!repeats(choices, b));
        }
    }
}

/// Whether `i` is the first position whose value occurs before it.
pub open spec fn first_repeat(choices: Seq<ChoiceView>, i: int) -> bool {
    &&& 0 <= i < choices.len()
    &&& repeats(choices, i)
    &&& forall|k: int| 0 <= k < i ==> !repeats(choices, k)
}

/// Tells whether the value of the choice at `i` occurs among the choices
/// before it.
fn repeats_earlier_value(choices: &Vec<CommandOptionChoice>, i: usize) -> (repeated: bool)
    requires
        i < choices.len(),
    ensures
        repeated == repeats(choice_views(choices@), i as int),
{
    let ghost views = choice_views(choices@);
    let mut j: usize = 0;
    while j < i
        invariant
            j <= i < choices.len(),
            views == choice_views(choices@),
            forall|k: int| 0 <= k < j ==> (#[trigger] views[k]).value != views[i as int].value,
        decreases i - j,
    {
        assert(views[j as int] == choices[j as int]@);
        assert(views[i as int] == choices[i as int]@);
        if choices[j].value == choices[i].value {
            return true;
        }
        j += 1;
    }
    false
}

/// Finds the first choice whose value occurs among the choices before it.
/// There is none exactly when the values are distinct.
pub fn find_repeated_value(choices: &Vec<CommandOptionChoice>) -> (found: Option<usize>)
    ensures
        match found {
            Some(i) => first_repeat(choice_views(choices@), i as int),
            None => distinct_values(choice_views(choices@)),
        },
        found is Some ==> !distinct_values(choice_views(choices@)),
{
    let ghost views = choice_views(choices@);
    proof {
        lemma_distinct_values(views);
    }
    let mut i: usize = 0;
    while i < choices.len()
        invariant
            i <= choices.len(),
            views == choice_views(choices@),
            forall|k: int| 0 <= k < i ==> !repeats(views, k),
        decreases choices.len() - i,
    {
        if repeats_earlier_value(choices, i) {
            return Some(i);
        }
        i += 1;
    }
    None
}

/// Gives each variant its choice: where a variant has no name or no value
/// of its own, its identifier takes the place.
pub fn resolve_variants(variants: &Vec<ChoiceVariant>) -> (choices: Vec<CommandOptionChoice>)
    ensures
        choice_views(choices@) == choices_of(variants@),
{
    let mut choices: Vec<CommandOptionChoice> = Vec::new();
    let mut i: usize = 0;
    while i < variants.len()
        invariant
            i <= variants.len(),
            choices.len() == i,
            forall|j: int| 0 <= j < i ==> (#[trigger] choices[j])@ == choice_of(variants[j]@),
        decreases variants.len() - i,
    {
        let variant = &variants[i];
        let name = match &variant.name {
            Some(name) => name.clone(),
            None => variant.ident.clone(),
        };
        let value = match &variant.value {
            Some(value) => value.clone(),
            None => variant.ident.clone(),
        };
        choices.push(CommandOptionChoice { name, value });
        i += 1;
    }
    assert(choice_views(choices@) =~= choices_of(variants@));
    choices
}

/// The text that tells why a list of choices cannot be published: that it
/// is too long, or else which value occurs twice.
pub open spec fn error_text(choices: Seq<ChoiceView>, text: Seq<char>) -> bool {
    if choices.len() > MAX_CHOICES {
        text == "Enums with more than 25 variants are not supported"@
    } else {
        exists|i: int|
            first_repeat(choices, i) && text == "Duplicate choice value found: "@ + (
            #[trigger] choices[i]).value
    }
}

/// Tells in words why a list of choices cannot be published; there is
/// nothing to tell exactly when it can.
pub fn describe_error(choices: &Vec<CommandOptionChoice>) -> (message: Option<String>)
    ensures
        match message {
            Some(text) => choices_error(choice_views(choices@)) is Some && error_text(
                choice_views(choices@),
                text@,
            ),
            None => choices_error(choice_views(choices@)) is None,
        },
{
    if choices.len() > MAX_CHOICES {
        return Some(String::from_str("Enums with more than 25 variants are not supported"));
    }
    match find_repeated_value(choices) {
        Some(i) => {
            let text = String::from_str("Duplicate choice value found: ").concat(
                choices[i].value.as_str(),
            );
            assert(choice_views(choices@)[i as int].value == choices[i as int].value@);
            Some(text)
        },
        None => None,
    }
}

/// A choice list that can be published: at most [`MAX_CHOICES`] entries,
/// no two with the same value.
#[derive(Debug)]
pub struct Choices {
    choices: Vec<CommandOptionChoice>,
}

impl View for Choices {
    type V = Seq<ChoiceView>;

    closed spec fn view(&self) -> Seq<ChoiceView> {
        choice_views(self.choices@)
    }
}

impl Choices {
    #[verifier::type_invariant]
    spec fn well_formed(&self) -> bool {
        valid_choices(choice_views(self.choices@))
    }

    /// Registers a list of choices. Fails where the list holds more than
    /// [`MAX_CHOICES`] entries, or else where two of them share a value.
    pub fn new(choices: Vec<CommandOptionChoice>) -> (registered: Result<Choices, SchemaError>)
        ensures
            match registered {
                Ok(list) => choices_error(choice_views(choices@)) is None && list@ == choice_views(
                    choices@,
                ),
                Err(error) => choices_error(choice_views(choices@)) == Some(error),
            },
    {
        if choices.len() > MAX_CHOICES {
            return Err(SchemaError::TooManyChoices);
        }
        if find_repeated_value(&choices).is_some() {
            return Err(SchemaError::DuplicateChoiceValue);
        }
        Ok(Choices { choices })
    }

    /// Registers the choices that the variants of an enumerated type stand
    /// for. Fails as [`Choices::new`] does.
    pub fn from_variants(variants: Vec<ChoiceVariant>) -> (registered: Result<Choices, SchemaError>)
        ensures
            match registered {
                Ok(list) => choices_error(choices_of(variants@)) is None && list@ == choices_of(
                    variants@,
                ),
                Err(error) => choices_error(choices_of(variants@)) == Some(error),
            },
    {
        Choices::new(resolve_variants(&variants))
    }

    /// The number of choices.
    pub fn len(&self) -> (count: usize)
        ensures
            count == self@.len(),
            count <= MAX_CHOICES,
            distinct_values(self@),
    {
        proof {
            use_type_invariant(self);
        }
        self.choices.len()
    }

    /// The schema of the type: a string option with these choices, in their
    /// order.
    pub fn to_option(&self) -> (option: CommandOption)
        ensures
            option@ == (CommandOptionView {
                choices: Some(self@),
                ..CommandOptionView::new(CommandOptionType::String)
            }),
    {
        let mut choices: Vec<CommandOptionChoice> = Vec::new();
        let mut i: usize = 0;
        while i < self.choices.len()
            invariant
                i <= self.choices.len(),
                choices.len() == i,
                forall|j: int| 0 <= j < i ==> (#[trigger] choices[j])@ == self.choices[j]@,
            decreases self.choices.len() - i,
        {
            choices.push(self.choices[i].clone());
            i += 1;
        }
        assert(choice_views(choices@) =~= self@);
        CommandOption::new(CommandOptionType::String).choices(choices)
    }

    /// Decodes a raw value to the position of the choice whose value it is.
    /// Fails where the value is no string, or the string is the value of no
    /// choice.
    pub fn convert(&self, data: &Value) -> (result: Result<usize, Error>)
        ensures
            match result {
                Ok(i) => data matches Value::String(raw) && i < self@.len() && self@[i as int].value
                    == raw@,
                Err(error) => error == Error::InvalidType && (data matches Value::String(raw)
                    ==> forall|i: int| 0 <= i < self@.len() ==> (#[trigger] self@[i]).value != raw@),
            },
    {
        if let Value::String(raw) = data {
            let mut i: usize = 0;
            while i < self.choices.len()
                invariant
                    i <= self.choices.len(),
                    *data == Value::String(*raw),
                    forall|j: int| 0 <= j < i ==> (#[trigger] self@[j]).value != raw@,
                decreases self.choices.len() - i,
            {
                assert(self@[i as int] == self.choices[i as int]@);
                if self.choices[i].value == *raw {
                    return Ok(i);
                }
                i += 1;
            }
            Err(Error::InvalidType)
        } else {
            Err(Error::InvalidType)
        }
    }

    /// Decodes a raw value that may be absent: absence is an error, as it is
    /// for every required argument.
    pub fn convert_optional(&self, data: Option<&Value>) -> (result: Result<usize, Error>)
        ensures
            match result {
                Ok(i) => data matches Some(Value::String(raw)) && i < self@.len() && self@[i as int].value
                    == raw@,
                Err(error) => error == Error::InvalidType && (data matches Some(Value::String(raw))
                    ==> forall|i: int| 0 <= i < self@.len() ==> (#[trigger] self@[i]).value != raw@),
            },
    {
        match data {
            Some(value) => self.convert(value),
            None => Err(Error::InvalidType),
        }
    }
}

} // verus!
