//! The start page.
use vstd::prelude::*;

verus! {

/// The key of the start page: it has no parameters.
#[derive(Debug, Clone, Copy, PartialEq, Eq, Structural, Default)]
pub struct PageKey {}

/// The state of the start page: it keeps none.
#[derive(Debug, Clone, Copy, PartialEq, Eq, Structural, Default)]
pub struct PageState {}

impl PageState {
    /// The state for a request: always the empty one.
    pub fn get_state(key: PageKey) -> (s: PageState)
        ensures
            s == (PageState {}),
    {
        PageState {}
    }
}

/// Where to go after the start page: the first `ReturnUrl` value of the query,
/// or `/` where there is none (or the query could not be read).
pub fn return_url(values: Option<&Vec<String>>) -> (r: String)
    ensures
        match values {
            Some(v) if v@.len() > 0 => r@ == v@[0]@,
            _ => r@ == "/"@,
        },
{
    match values {
        Some(v) => {
            if v.len() > 0 {
                v[0].clone()
            } else {
                String::from_str("/")
            }
        },
        None => String::from_str("/"),
    }
}

} // verus!
