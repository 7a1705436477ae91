//! The outcome of a route handler: go on to the next handler, or stop with
//! an error.
use vstd::prelude::*;
use crate::error::HttpError;

verus! {

/// Go on to the next handler.
pub fn next() -> (r: Result<Option<HttpError>, std::io::Error>)
    ensures
        r matches Ok(None),
{
    Ok(None)
}

/// Stop with the error `err`.
pub fn error(err: HttpError) -> (r: Result<Option<HttpError>, std::io::Error>)
    ensures
        r matches Ok(Some(e)) && e == err,
{
    Ok(Some(err))
}

} // verus!
