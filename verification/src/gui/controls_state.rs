//! A text field bound to a validated value.

use vstd::prelude::*;

use std::fmt::Display;
use vstd::string::to_string_from_display_ensures;

verus! {

/// The raw text of a field together with the last value its validator
/// accepted. The validator may be called on any text.
#[verifier::reject_recursive_types(T)]
#[verifier::reject_recursive_types(E)]
pub struct ValidatedBinding<T, E, F> where F: Fn(&str) -> Result<T, E> {
    raw_value: String,
    validated_value: T,
    is_valid: bool,
    only_update_on_valid: bool,
    validator: F,
}

impl<T, E, F> ValidatedBinding<T, E, F> where F: Fn(&str) -> Result<T, E> {
    #[verifier::type_invariant]
    spec fn callable(self) -> bool {
        forall|text: &str| call_requires(self.validator, (text,))
    }

    /// The text shown in the field.
    pub closed spec fn raw(self) -> String {
        self.raw_value
    }

    /// The last value the validator accepted, or the value last set.
    pub closed spec fn validated(self) -> T {
        self.validated_value
    }

    /// Whether the last update was accepted.
    pub closed spec fn valid(self) -> bool {
        self.is_valid
    }

    /// Whether rejected text is kept out of the field.
    pub closed spec fn keeps_only_valid_text(self) -> bool {
        self.only_update_on_valid
    }

    /// The validator.
    pub closed spec fn check(self) -> F {
        self.validator
    }

    /// `after` is this binding once `text` was offered and the validator
    /// answered `result`: an accepted value becomes the validated value, and the
    /// text is shown unless it was rejected while only valid text is kept.
    pub open spec fn is_update(self, after: Self, text: &str, result: Result<T, E>) -> bool {
        &&& call_ensures(self.check(), (text,), result)
        &&& after.check() == self.check()
        &&& after.keeps_only_valid_text() == self.keeps_only_valid_text()
        &&& after.valid() == result is Ok
        &&& after.validated() == match result {
            Ok(value) => value,
            Err(_) => self.validated(),
        }
        &&& after.raw()@ == (if result is Err && self.keeps_only_valid_text() {
            self.raw()@
        } else {
            text@
        })
    }
}

impl<T, E, F> ValidatedBinding<T, E, F> where F: Fn(&str) -> Result<T, E> {
    /// A field made by `new` or `set` (so valid) and then offered `texts` in
    /// turn, its validator answering `results`, is valid exactly when nothing
    /// was offered since or the last offer was accepted, and holds the value
    /// last accepted, or else the value it was made with.
    pub proof fn lemma_updates_keep_last_accepted(
        steps: Seq<Self>,
        texts: Seq<&str>,
        results: Seq<Result<T, E>>,
    )
        requires
            steps.len() == results.len() + 1,
            texts.len() == results.len(),
            steps[0].valid(),
            forall|i: int|
                0 <= i < results.len() ==> #[trigger] steps[i].is_update(
                    steps[i + 1],
                    texts[i],
                    results[i],
                ),
        ensures
            steps.last().valid() == (results.len() == 0 || results.last() is Ok),
            steps.last().validated() == last_accepted(steps[0].validated(), results),
        decreases results.len(),
    {
        if results.len() > 0 {
            let n = results.len() as int;
            Self::lemma_updates_keep_last_accepted(
                steps.drop_last(),
                texts.drop_last(),
                results.drop_last(),
            );
            assert(steps[n - 1].is_update(steps[n], texts[n - 1], results[n - 1]));
            assert(steps.drop_last().last() == steps[n - 1]);
        }
    }
}

/// The value last accepted among `results`, or `initial` when none was.
pub open spec fn last_accepted<T, E>(initial: T, results: Seq<Result<T, E>>) -> T
    decreases results.len(),
{
    if results.len() == 0 {
        initial
    } else {
        match results.last() {
            Ok(value) => value,
            Err(_) => last_accepted(initial, results.drop_last()),
        }
    }
}

impl<T: Copy + Display, E, F: Fn(&str) -> Result<T, E>> ValidatedBinding<T, E, F> {
    /// A valid binding showing `initial_value` as text.
    pub fn new(initial_value: T, validator: F) -> (binding: Self)
        requires
            forall|text: &str| call_requires(validator, (text,)),
        ensures
            to_string_from_display_ensures(&initial_value, binding.raw()),
            binding.validated() == initial_value,
            binding.valid(),
            !binding.keeps_only_valid_text(),
            binding.check() == validator,
    {
        let raw_value = initial_value.to_string();
        ValidatedBinding {
            raw_value,
            validated_value: initial_value,
            is_valid: true,
            only_update_on_valid: false,
            validator,
        }
    }

    /// Chooses whether rejected text is kept out of the field.
    pub fn only_update_raw_on_valid(self, only_update_on_valid: bool) -> (binding: Self)
        ensures
            binding.keeps_only_valid_text() == only_update_on_valid,
            binding.raw() == self.raw(),
            binding.validated() == self.validated(),
            binding.valid() == self.valid(),
            binding.check() == self.check(),
    {
        proof {
            use_type_invariant(&self);
        }
        let mut binding = self;
        binding.only_update_on_valid = only_update_on_valid;
        binding
    }

    /// Runs the validator on `new_value` and returns what it returned. An
    /// accepted value becomes the validated value; the text is shown unless it
    /// was rejected while only valid text is kept.
    pub fn update(&mut self, new_value: &str) -> (result: Result<T, E>)
        ensures
            old(self).is_update(*final(self), new_value, result),
    {
        proof {
            use_type_invariant(&*self);
        }
        let result = (self.validator)(new_value);
        let accepted = match &result {
            Ok(validated) => {
                self.validated_value = *validated;
                true
            },
            Err(_) => false,
        };
        if accepted || !self.only_update_on_valid {
            self.raw_value = String::from_str(new_value);
        }
        self.is_valid = accepted;
        result
    }

    /// Shows `new_value` as text and makes it the valid value.
    pub fn set(self, new_value: T) -> (result: Result<Self, E>)
        ensures
            result matches Ok(binding) && {
                &&& to_string_from_display_ensures(&new_value, binding.raw())
                &&& binding.validated() == new_value
                &&& binding.valid()
                &&& binding.keeps_only_valid_text() == self.keeps_only_valid_text()
                &&& binding.check() == self.check()
            },
    {
        proof {
            use_type_invariant(&self);
        }
        let mut binding = self;
        binding.raw_value = new_value.to_string();
        binding.validated_value = new_value;
        binding.is_valid = true;
        Ok(binding)
    }

    /// The text shown in the field.
    pub fn get_raw(&self) -> (raw: &str)
        ensures
            raw@ == self.raw()@,
    {
        self.raw_value.as_str()
    }

    /// The validated value.
    pub fn get_validated(&self) -> (value: &T)
        ensures
            *value == self.validated(),
    {
        &self.validated_value
    }

    /// Whether the last update was accepted.
    pub fn is_valid(&self) -> (valid: bool)
        ensures
            valid == self.valid(),
    {
        self.is_valid
    }
}

} // verus!

verus! {

/// `c` is an ASCII decimal digit.
pub open spec fn is_digit(c: char) -> bool {
    '0' <= c <= '9'
}

/// The number that a string of decimal digits spells.
pub open spec fn decimal_value(digits: Seq<char>) -> nat
    decreases digits.len(),
{
    if digits.len() == 0 {
        0
    } else {
        decimal_value(digits.drop_last()) * 10 + (digits.last() as nat - '0' as nat) as nat
    }
}

/// The digits of an unsigned number's text: the text without one leading `+`.
pub open spec fn unsigned_digits(text: Seq<char>) -> Seq<char> {
    if text.len() > 0 && text[0] == '+' {
        text.drop_first()
    } else {
        text
    }
}

/// `digits` is one or more decimal digits.
pub open spec fn all_digits(digits: Seq<char>) -> bool {
    &&& digits.len() > 0
    &&& forall|i: int| 0 <= i < digits.len() ==> is_digit(#[trigger] digits[i])
}

/// What `str::parse` gives for an unsigned integer type whose largest value is
/// `max`: an optional `+` followed by one or more decimal digits whose value
/// fits; any other text is refused.
pub open spec fn parsed_unsigned(text: Seq<char>, max: nat) -> Option<nat> {
    if all_digits(unsigned_digits(text)) && decimal_value(unsigned_digits(text)) <= max {
        Some(decimal_value(unsigned_digits(text)))
    } else {
        None
    }
}

/// `str::parse::<u32>`, as its documentation describes `u32::from_str`: an
/// optional `+` and decimal digits, with no surrounding text, within range.
#[verifier::external_body]
fn parse_u32(text: &str) -> (value: Option<u32>)
    ensures
        value == match parsed_unsigned(text@, u32::MAX as nat) {
            Some(number) => Some(number as u32),
            None => None::<u32>,
        },
{
    text.parse::<u32>().ok()
}

/// `str::parse::<u64>`, as its documentation describes `u64::from_str`: an
/// optional `+` and decimal digits, with no surrounding text, within range.
#[verifier::external_body]
fn parse_u64(text: &str) -> (value: Option<u64>)
    ensures
        value == match parsed_unsigned(text@, u64::MAX as nat) {
            Some(number) => Some(number as u64),
            None => None::<u64>,
        },
{
    text.parse::<u64>().ok()
}

/// `str::parse::<usize>`, as its documentation describes `usize::from_str`: an
/// optional `+` and decimal digits, with no surrounding text, within range.
#[verifier::external_body]
fn parse_usize(text: &str) -> (value: Option<usize>)
    ensures
        value == match parsed_unsigned(text@, usize::MAX as nat) {
            Some(number) => Some(number as usize),
            None => None::<usize>,
        },
{
    text.parse::<usize>().ok()
}

/// The answer of a positive-integer field to `text`.
pub open spec fn positive_integer_answer(text: Seq<char>, max: nat) -> Result<nat, Seq<char>> {
    match parsed_unsigned(text, max) {
        None => Err("Preview size must be a positive integer"@),
        Some(number) => if number == 0 {
            Err("Preview size must be greater than zero"@)
        } else {
            Ok(number)
        },
    }
}

/// Accepts the text of a positive `u32`.
pub fn validate_integer_u32(value: &str) -> (result: Result<u32, String>)
    ensures
        match positive_integer_answer(value@, u32::MAX as nat) {
            Ok(number) => result == Ok::<u32, String>(number as u32),
            Err(message) => result matches Err(text) && text@ == message,
        },
{
    match parse_u32(value) {
        None => Err(String::from_str("Preview size must be a positive integer")),
        Some(size) => if size == 0 {
            Err(String::from_str("Preview size must be greater than zero"))
        } else {
            Ok(size)
        },
    }
}

/// Accepts the text of a positive `usize`.
pub fn validate_integer_usize(value: &str) -> (result: Result<usize, String>)
    ensures
        match positive_integer_answer(value@, usize::MAX as nat) {
            Ok(number) => result == Ok::<usize, String>(number as usize),
            Err(message) => result matches Err(text) && text@ == message,
        },
{
    match parse_usize(value) {
        None => Err(String::from_str("Preview size must be a positive integer")),
        Some(size) => if size == 0 {
            Err(String::from_str("Preview size must be greater than zero"))
        } else {
            Ok(size)
        },
    }
}

/// Accepts the text of any `u64` seed.
pub fn validate_seed(value: &str) -> (result: Result<u64, String>)
    ensures
        match parsed_unsigned(value@, u64::MAX as nat) {
            Some(number) => result == Ok::<u64, String>(number as u64),
            None => result matches Err(text) && text@ == "Seed must be an unsigned integer"@,
        },
{
    match parse_u64(value) {
        Some(seed) => Ok(seed),
        None => Err(String::from_str("Seed must be an unsigned integer")),
    }
}

} // verus!
