//! A use of a named binding inside an expression.
use vstd::prelude::*;
use crate::utils::{extract_ident, is_letter, is_letter_or_digit, prefix_len};

verus! {

/// A reference to a binding by its name.
#[derive(Debug, PartialEq, Eq)]
pub struct BindingUsage {
    pub name: String,
}

impl BindingUsage {
    /// Reads the identifier at the front of `s` as a binding's name.
    pub fn new(s: &str) -> (r: Result<(&str, BindingUsage), String>)
        ensures
            r is Ok <==> s@.len() > 0 && is_letter(s@[0]),
            r matches Ok(p) ==> {
                let n = prefix_len(s@, |c: char| is_letter_or_digit(c)) as int;
                p.1.name@ == s@.take(n) && p.0@ == s@.skip(n)
            },
            r matches Err(e) ==> e@ == "expected identifier"@,
    {
        let (s, name) = extract_ident(s)?;
        Ok((s, BindingUsage { name: name.to_string() }))
    }
}

} // verus!
