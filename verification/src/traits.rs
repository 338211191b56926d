//! Extensions that turn foreign failures into this library's error type,
//! with a caller-supplied context message.

use vstd::prelude::*;

use crate::errors::Error;

verus! {

/// Turns any failed result into a contextual error of this library.
pub trait ResultExtension<T, E>: Sized {
    /// Keeps a success; replaces a failure with the message.
    fn or_error(self, msg: String) -> (r: Result<T, Error>);

    /// Keeps a success; replaces a failure with the message.
    fn or_error_str(self, msg: &str) -> (r: Result<T, Error>);
}

impl<T, E> ResultExtension<T, E> for Result<T, E> {
    fn or_error(self, msg: String) -> (r: Result<T, Error>)
        ensures
            self matches Ok(v) ==> r == Ok::<T, Error>(v),
            self is Err ==> (r matches Err(e) && (e matches Error::Remote { context } && context
                == msg)),
    {
        match self {
            Ok(v) => Ok(v),
            Err(u) => Err(Error::Remote { context: msg }),
        }
    }

    fn or_error_str(self, msg: &str) -> (r: Result<T, Error>)
        ensures
            self matches Ok(v) ==> r == Ok::<T, Error>(v),
            self is Err ==> (r matches Err(e) && (e matches Error::Remote { context } && context@
                == msg@)),
    {
        match self {
            Ok(v) => Ok(v),
            Err(u) => Err(Error::Remote { context: msg.to_owned() }),
        }
    }
}

/// Turns an absent value into a contextual error of this library.
pub trait OptionExtension<T>: Sized {
    /// Keeps a present value; replaces absence with the message.
    fn or_error(self, msg: String) -> (r: Result<T, Error>);

    /// Keeps a present value; replaces absence with the message.
    fn or_error_str(self, msg: &str) -> (r: Result<T, Error>);
}

impl<T> OptionExtension<T> for Option<T> {
    fn or_error(self, msg: String) -> (r: Result<T, Error>)
        ensures
            self matches Some(v) ==> r == Ok::<T, Error>(v),
            self is None ==> (r matches Err(e) && (e matches Error::Remote { context } && context
                == msg)),
    {
        match self {
            Some(v) => Ok(v),
            None => Err(Error::Remote { context: msg }),
        }
    }

    fn or_error_str(self, msg: &str) -> (r: Result<T, Error>)
        ensures
            self matches Some(v) ==> r == Ok::<T, Error>(v),
            self is None ==> (r matches Err(e) && (e matches Error::Remote { context } && context@
                == msg@)),
    {
        match self {
            Some(v) => Ok(v),
            None => Err(Error::Remote { context: msg.to_owned() }),
        }
    }
}

} // verus!
