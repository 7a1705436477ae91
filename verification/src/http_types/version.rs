//! Protocol versions.
use vstd::prelude::*;
use crate::text::{decimal_string, push_char, spec_decimal};

verus! {

/// An HTTP version: a major and a minor number.
#[derive(Debug, Clone, Copy, PartialEq, Eq, Structural)]
pub struct Version {
    pub major: u8,
    pub minor: u8,
}

/// A version written out: `HTTP/major.minor`.
pub open spec fn version_string(v: Version) -> Seq<char> {
    seq!['H', 'T', 'T', 'P', '/'] + spec_decimal(v.major as nat) + seq!['.'] + spec_decimal(v.minor as nat)
}

impl Version {
    /// This version written out: `HTTP/major.minor`.
    pub fn to_string(&self) -> (s: String)
        ensures
            s@ == version_string(*self),
    {
        let mut s = String::new();
        push_char(&mut s, 'H');
        push_char(&mut s, 'T');
        push_char(&mut s, 'T');
        push_char(&mut s, 'P');
        push_char(&mut s, '/');
        let major = decimal_string(self.major as u64);
        s.append(major.as_str());
        push_char(&mut s, '.');
        let minor = decimal_string(self.minor as u64);
        s.append(minor.as_str());
        proof {
            assert(s@ =~= version_string(*self));
        }
        s
    }
}

} // verus!
