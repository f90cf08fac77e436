//! Keys of the replacement tables: one number, or any number.

use crate::replacements::number::{
    lemma_signed_decimal_round_trip, parse_i64, push_signed_decimal, spec_parse_i64,
    spec_signed_decimal,
};
use crate::decimal::lemma_decimal_is_digits;
use vstd::prelude::*;
use vstd::string::{StrSliceExecFns, StringExecFns};

verus! {

/// A block id or a data value to match: a given number, or every number.
#[derive(Debug, PartialEq, Eq, Hash, Clone, Copy, Structural)]
pub enum ValOrAny {
    Val(i64),
    Any,
}

impl ValOrAny {
    /// The key as text: the number in decimal, or `*` for any number.
    pub open spec fn spec_key(self) -> Seq<char> {
        match self {
            ValOrAny::Val(n) => spec_signed_decimal(n as int),
            ValOrAny::Any => seq!['*'],
        }
    }

    /// The key that `s` spells: any number for `*`, else the number that `s`
    /// is the decimal text of. None when it is neither.
    pub open spec fn spec_from_key(s: Seq<char>) -> Option<ValOrAny> {
        if s == seq!['*'] {
            Some(ValOrAny::Any)
        } else {
            match spec_parse_i64(s) {
                Some(n) => Some(ValOrAny::Val(n)),
                None => None,
            }
        }
    }

    /// The key as text.
    pub fn to_key(&self) -> (s: String)
        ensures
            s@ == self.spec_key(),
    {
        match self {
            ValOrAny::Val(n) => {
                let mut s: String = String::new();
                push_signed_decimal(&mut s, *n);
                assert(s@ =~= self.spec_key());
                s
            },
            ValOrAny::Any => {
                proof {
                    reveal_strlit("*");
                }
                let s: String = String::from_str("*");
                assert(s@ =~= seq!['*']);
                s
            },
        }
    }

    /// Reads a key from its text.
    pub fn from_key(s: &str) -> (r: Option<ValOrAny>)
        ensures
            r == Self::spec_from_key(s@),
    {
        if s.unicode_len() == 1 && s.get_char(0) as u32 == 42 {
            assert(s@ =~= seq!['*']);
            Some(ValOrAny::Any)
        } else {
            match parse_i64(s) {
                Some(n) => Some(ValOrAny::Val(n)),
                None => None,
            }
        }
    }
}

/// Reading the text of a key gives the key back.
pub proof fn lemma_key_round_trip(key: ValOrAny)
    ensures
        ValOrAny::spec_from_key(key.spec_key()) == Some(key),
{
    match key {
        ValOrAny::Val(n) => {
            lemma_signed_decimal_round_trip(n);
            if n < 0 {
                assert(key.spec_key()[0] == '-');
            } else {
                lemma_decimal_is_digits(n as nat);
                assert(key.spec_key()[0] != '*');
            }
        },
        ValOrAny::Any => {},
    }
}

} // verus!
