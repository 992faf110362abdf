//! The "parseable from text" capability.
//!
//! The retry loop is generic in its target type: any type that can be
//! constructed by parsing a trimmed line may be read. `FromText` states
//! that capability, together with its full specification: which texts the
//! type accepts, and which value an accepted text denotes. Implementations
//! are given for the built-in integer, boolean and string types; user
//! types may implement the trait in the same way.

use vstd::prelude::*;
use vstd::string::StrSliceExecFns;
use crate::numbers::{int_text_val, is_int_text, is_negative, parse_i64, parse_u32};

verus! {

/// A type whose values can be parsed from a trimmed line of text.
///
/// `accepts` says exactly which texts parse; `value_of` says, through the
/// type's view, which value an accepted text denotes. `from_text` is the
/// executable parser, bound to both.
pub trait FromText: View + Sized {
    /// The texts that parse into this type.
    spec fn accepts(s: Seq<char>) -> bool;

    /// The value that an accepted text denotes.
    spec fn value_of(s: Seq<char>) -> Self::V
        recommends
            Self::accepts(s),
    ;

    /// Parse a trimmed text: succeeds exactly on accepted texts, and then
    /// returns exactly the denoted value.
    fn from_text(s: &str) -> (r: Option<Self>)
        ensures
            r is Some <==> Self::accepts(s@),
            r matches Some(v) ==> v@ == Self::value_of(s@),
    ;
}

impl FromText for i64 {
    /// An optional sign, digits, and a value in the type's range.
    open spec fn accepts(s: Seq<char>) -> bool {
        is_int_text(s) && i64::MIN <= int_text_val(s) <= i64::MAX
    }

    open spec fn value_of(s: Seq<char>) -> i64 {
        int_text_val(s) as i64
    }

    fn from_text(s: &str) -> (r: Option<i64>) {
        parse_i64(s)
    }
}

impl FromText for u32 {
    /// An optional plus sign, digits, and a value in the type's range.
    open spec fn accepts(s: Seq<char>) -> bool {
        is_int_text(s) && !is_negative(s) && int_text_val(s) <= u32::MAX
    }

    open spec fn value_of(s: Seq<char>) -> u32 {
        int_text_val(s) as u32
    }

    fn from_text(s: &str) -> (r: Option<u32>) {
        parse_u32(s)
    }
}

impl FromText for bool {
    /// Exactly the words `true` and `false`.
    open spec fn accepts(s: Seq<char>) -> bool {
        s == seq!['t', 'r', 'u', 'e'] || s == seq!['f', 'a', 'l', 's', 'e']
    }

    open spec fn value_of(s: Seq<char>) -> bool {
        s == seq!['t', 'r', 'u', 'e']
    }

    fn from_text(s: &str) -> (r: Option<bool>) {
        let n = s.unicode_len();
        if n == 4 && s.get_char(0) == 't' && s.get_char(1) == 'r' && s.get_char(2) == 'u'
            && s.get_char(3) == 'e' {
            proof {
                assert(s@ =~= seq!['t', 'r', 'u', 'e']);
            }
            Some(true)
        } else if n == 5 && s.get_char(0) == 'f' && s.get_char(1) == 'a' && s.get_char(2) == 'l'
            && s.get_char(3) == 's' && s.get_char(4) == 'e' {
            proof {
                assert(s@ =~= seq!['f', 'a', 'l', 's', 'e']);
            }
            Some(false)
        } else {
            None
        }
    }
}

impl FromText for String {
    /// Every text is accepted, the empty one included.
    open spec fn accepts(s: Seq<char>) -> bool {
        true
    }

    open spec fn value_of(s: Seq<char>) -> Seq<char> {
        s
    }

    fn from_text(s: &str) -> (r: Option<String>) {
        Some(s.to_owned())
    }
}

} // verus!
