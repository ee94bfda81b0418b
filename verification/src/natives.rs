//! The functions that every program finds defined: `clock`, `len` and `push`.
//! Each one states how many arguments it takes and decides, from what its
//! arguments are, what the call gives.
use vstd::prelude::*;

use crate::arrays::Arrays;
use crate::environment::RuntimeError;
use crate::token::Token;

verus! {

/// `clock()`: the seconds since the Unix epoch.
#[derive(Debug)]
pub struct Clock;

/// `len(x)`: the number of elements of an array, or of characters of a string.
#[derive(Debug)]
pub struct Len;

/// `push(x, y)`: appends `y` to the array `x`, or gives the string `x` followed by
/// the text of `y`.
#[derive(Debug)]
pub struct Push;

/// What `len` needs to know of its argument.
pub enum LenArgument {
    /// An array, by its index in the store of arrays.
    Array(usize),
    /// A string.
    Str(String),
    /// Any other value.
    Other,
}

/// What `push` needs to know of its first argument.
pub enum PushTarget {
    /// An array, by its index in the store of arrays.
    Array(usize),
    /// A string.
    Str(String),
    /// Any other value.
    Other,
}

/// What a call of `push` does.
pub enum PushOutcome {
    /// The second argument was appended to the array, and the call gives `nil`.
    AppendToArray,
    /// The call gives this new string; the string passed in is unchanged.
    NewString(String),
}

/// The message of the error raised by `len` on a value that has no length.
pub open spec fn len_error_message() -> Seq<char> {
    "unable to get len of this type"@
}

/// The message of the error raised by `push` on a value it cannot extend.
pub open spec fn push_error_message() -> Seq<char> {
    "can only append to arrays and strings"@
}

impl Clock {
    /// `clock` takes no argument.
    pub fn arity(&self) -> (n: usize)
        ensures
            n == 0,
    {
        0
    }

    /// The text that stands for the function when it is printed.
    pub fn name(&self) -> (s: &'static str)
        ensures
            s@ == "<native fn>"@,
    {
        "<native fn>"
    }
}

impl Len {
    /// `len` takes one argument.
    pub fn arity(&self) -> (n: usize)
        ensures
            n == 1,
    {
        1
    }

    /// The text that stands for the function when it is printed.
    pub fn name(&self) -> (s: &'static str)
        ensures
            s@ == "<native fn>"@,
    {
        "<native fn>"
    }

    /// The length of the argument: the number of elements of an array of
    /// `arrays` or of characters of a string; any other value is an error at `paren`.
    pub fn call<V>(&self, arrays: &Arrays<V>, argument: &LenArgument, paren: &Token) -> (r: Result<
        usize,
        RuntimeError,
    >)
        requires
            argument matches LenArgument::Array(a) ==> a < arrays@.len(),
        ensures
            match argument {
                LenArgument::Array(a) => r == Ok::<usize, RuntimeError>(
                    arrays@[*a as int].len() as usize,
                ),
                LenArgument::Str(s) => r matches Ok(n) && n == s@.len(),
                LenArgument::Other => r matches Err(e) && e.token == *paren && e.message@
                    == len_error_message(),
            },
    {
        match argument {
            LenArgument::Array(a) => Ok(arrays.len(*a)),
            LenArgument::Str(s) => Ok(s.as_str().unicode_len()),
            LenArgument::Other => Err(
                RuntimeError {
                    token: paren.duplicate(),
                    message: String::from_str("unable to get len of this type"),
                },
            ),
        }
    }
}

impl Push {
    /// `push` takes two arguments.
    pub fn arity(&self) -> (n: usize)
        ensures
            n == 2,
    {
        2
    }

    /// The text that stands for the function when it is printed.
    pub fn name(&self) -> (s: &'static str)
        ensures
            s@ == "<native fn>"@,
    {
        "<native fn>"
    }

    /// Pushes `value`, whose text is `text`, onto `target`: an array of `arrays`
    /// gets the value at its end and the call gives `nil`; a string gives a new
    /// string followed by the text, and the string passed in is unchanged; any other
    /// value is an error at `paren`, and no array changes.
    pub fn call<V>(
        &self,
        arrays: &mut Arrays<V>,
        target: PushTarget,
        value: V,
        text: &String,
        paren: &Token,
    ) -> (r: Result<PushOutcome, RuntimeError>)
        requires
            target matches PushTarget::Array(a) ==> a < old(arrays)@.len(),
        ensures
            match target {
                PushTarget::Array(a) => r matches Ok(PushOutcome::AppendToArray) && final(arrays)@
                    == old(arrays)@.update(a as int, old(arrays)@[a as int].push(value)),
                PushTarget::Str(s) => (r matches Ok(PushOutcome::NewString(t)) && t@ == s@
                    + text@) && final(arrays)@ == old(arrays)@,
                PushTarget::Other => (r matches Err(e) && e.token == *paren && e.message@
                    == push_error_message()) && final(arrays)@ == old(arrays)@,
            },
    {
        match target {
            PushTarget::Array(a) => {
                arrays.push(a, value);
                Ok(PushOutcome::AppendToArray)
            },
            PushTarget::Str(s) => {
                let mut t = s;
                t.append(text.as_str());
                Ok(PushOutcome::NewString(t))
            },
            PushTarget::Other => Err(
                RuntimeError {
                    token: paren.duplicate(),
                    message: String::from_str("can only append to arrays and strings"),
                },
            ),
        }
    }
}

} // verus!
