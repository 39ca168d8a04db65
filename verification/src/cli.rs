//! What the command line of a client decides by itself: the shape of its
//! errors and the reading of a module selector.

use vstd::prelude::*;
use vstd::string::*;

verus! {

/// The kinds of failure that the command line reports.
#[derive(Debug, Clone, Copy, PartialEq, Eq, Structural)]
pub enum CliErrorKind {
    NetworkError,
    IOError,
    InvalidValue,
    OSError,
    GeneralFederationError,
    AlreadySpent,
    Timeout,
    InsufficientBalance,
    SerializationError,
    GeneralFailure,
}

/// A failure as the command line reports it.
#[derive(Debug, Clone, PartialEq, Eq)]
pub struct CliError {
    pub kind: CliErrorKind,
    pub message: String,
    /// The text of the error underneath, if there is one.
    pub raw_error: Option<String>,
}

/// The text of an optional string.
pub open spec fn text_of(o: Option<String>) -> Option<Seq<char>> {
    match o {
        Some(s) => Some(s@),
        None => None,
    }
}

/// What is reported for a value that is missing.
pub open spec fn missing_value_text() -> Seq<char> {
    "Missing value"@
}

impl CliError {
    /// A failure of the given kind, with its message and the error
    /// underneath.
    pub fn from(kind: CliErrorKind, message: &str, err: Option<String>) -> (e: CliError)
        ensures
            e.kind == kind,
            e.message@ == message@,
            e.raw_error == err,
    {
        CliError { kind: (kind), message: message.to_owned(), raw_error: err }
    }

    /// The failure that ends the program when an operation fails and no
    /// message is given: the error's own text is the message.
    pub fn from_failure(kind: CliErrorKind, err: String) -> (e: CliError)
        ensures
            e.kind == kind,
            e.message@ == err@,
            text_of(e.raw_error) == Some(err@),
    {
        let message = err.clone();
        CliError { kind, message, raw_error: Some(err) }
    }

    /// The failure that ends the program when a value is missing and no
    /// message is given.
    pub fn from_missing(kind: CliErrorKind) -> (e: CliError)
        ensures
            e.kind == kind,
            e.message@ == missing_value_text(),
            e.raw_error is None,
    {
        CliError::from(kind, "Missing value", None)
    }
}

/// Turns the failure of an operation into a failure of the command line, of
/// the given kind and with the given message, and leaves a success as it is.
pub fn transform<T>(result: Result<T, String>, err: CliErrorKind, msg: &str) -> (r: Result<
    T,
    CliError,
>)
    ensures
        match (result, r) {
            (Ok(v), Ok(w)) => v == w,
            (Err(e), Err(f)) => f.kind == err && f.message@ == msg@ && f.raw_error == Some(e),
            _ => false,
        },
{
    match result {
        Ok(v) => Ok(v),
        Err(e) => Err(CliError::from(err, msg, Some(e))),
    }
}

/// Which module a command is for: the one with the given instance id, or the
/// first of the given kind.
#[derive(Debug, Clone, PartialEq, Eq)]
pub enum ModuleSelector {
    Id(u16),
    Kind(String),
}

/// The value of a [`ModuleSelector`].
pub ghost enum ModuleSelectorView {
    Id(u16),
    Kind(Seq<char>),
}

impl View for ModuleSelector {
    type V = ModuleSelectorView;

    open spec fn view(&self) -> ModuleSelectorView {
        match self {
            ModuleSelector::Id(id) => ModuleSelectorView::Id(*id),
            ModuleSelector::Kind(kind) => ModuleSelectorView::Kind(kind@),
        }
    }
}

/// Why a selector made of digits is no instance id.
#[derive(Debug, Clone, Copy, PartialEq, Eq, Structural)]
pub enum ModuleSelectorError {
    /// The selector is empty.
    Empty,
    /// The number is beyond the largest instance id.
    TooLarge,
}

/// Whether the character is one of `0` to `9`.
pub open spec fn is_digit(c: char) -> bool {
    '0' <= c && c <= '9'
}

/// The number that a digit stands for.
pub open spec fn digit_value(c: char) -> nat {
    (c as u32 - '0' as u32) as nat
}

/// Whether the text is made of digits alone. The empty text is.
pub open spec fn all_digits(s: Seq<char>) -> bool {
    forall|i: int| 0 <= i < s.len() ==> is_digit(#[trigger] s[i])
}

/// The number that a text of digits stands for in decimal notation.
pub open spec fn decimal(s: Seq<char>) -> nat
    decreases s.len(),
{
    if s.len() == 0 {
        0
    } else {
        decimal(s.drop_last()) * 10 + digit_value(s.last())
    }
}

/// The selector that a text stands for. A text of digits is an instance id,
/// if it is not empty and the number fits; any other text is a module kind.
pub open spec fn selector_of(s: Seq<char>) -> Result<ModuleSelectorView, ModuleSelectorError> {
    if all_digits(s) {
        if s.len() == 0 {
            Err(ModuleSelectorError::Empty)
        } else if decimal(s) > u16::MAX {
            Err(ModuleSelectorError::TooLarge)
        } else {
            Ok(ModuleSelectorView::Id(decimal(s) as u16))
        }
    } else {
        Ok(ModuleSelectorView::Kind(s))
    }
}

/// A text of digits stands for at least the number of each of its prefixes.
pub proof fn lemma_decimal_prefix(s: Seq<char>, n: int)
    requires
        0 <= n <= s.len(),
    ensures
        decimal(s.take(n)) <= decimal(s),
    decreases s.len(),
{
    if n == s.len() {
        assert(s.take(n) == s);
    } else {
        lemma_decimal_prefix(s.drop_last(), n);
        assert(s.drop_last().take(n) == s.take(n));
    }
}

impl ModuleSelector {
    /// Reads a selector.
    pub fn from_str(s: &str) -> (r: Result<ModuleSelector, ModuleSelectorError>)
        ensures
            match r {
                Ok(selector) => selector_of(s@) == Ok::<ModuleSelectorView, ModuleSelectorError>(
                    selector@,
                ),
                Err(e) => selector_of(s@) == Err::<ModuleSelectorView, ModuleSelectorError>(e),
            },
    {
        let len = s.unicode_len();
        let mut i: usize = 0;
        while i < len
            invariant
                i <= len,
                len == s@.len(),
                forall|j: int| 0 <= j < i ==> is_digit(#[trigger] s@[j]),
            decreases len - i,
        {
            let c = s.get_char(i);
            if !('0' <= c && c <= '9') {
                return Ok(ModuleSelector::Kind(s.to_owned()));
            }
            i += 1;
        }
        if len == 0 {
            return Err(ModuleSelectorError::Empty);
        }
        let mut value: u32 = 0;
        let mut k: usize = 0;
        while k < len
            invariant
                k <= len,
                len == s@.len(),
                all_digits(s@),
                value == decimal(s@.take(k as int)),
                value <= u16::MAX,
            decreases len - k,
        {
            let c = s.get_char(k);
            proof {
                assert(s@.take(k + 1).drop_last() == s@.take(k as int));
                assert(is_digit(s@[k as int]));
                lemma_decimal_prefix(s@, k + 1);
            }
            let next = value * 10 + (c as u32 - '0' as u32);
            if next > 65535 {
                return Err(ModuleSelectorError::TooLarge);
            }
            value = next;
            k += 1;
        }
        proof {
            assert(s@.take(k as int) == s@);
        }
        Ok(ModuleSelector::Id(value as u16))
    }
}

} // verus!
