use vstd::prelude::*;

use widestring::error::ContainsNul;
use widestring::U16CString;

use crate::handles::Il2CppString;

verus! {

#[verifier::external_type_specification]
#[verifier::external_body]
pub struct ExU16CString(widestring::U16CString);

#[verifier::external_type_specification]
#[verifier::external_body]
#[verifier::reject_recursive_types(C)]
pub struct ExContainsNul<C>(widestring::error::ContainsNul<C>);

/// The UTF-16 code units of one character.
pub open spec fn utf16_of_char(c: char) -> Seq<u16> {
    let v = c as int;
    if v < 0x10000 {
        seq![v as u16]
    } else {
        seq![(0xD800 + (v - 0x10000) / 0x400) as u16, (0xDC00 + (v - 0x10000) % 0x400) as u16]
    }
}

/// The UTF-16 encoding of a string.
pub open spec fn utf16_of(s: Seq<char>) -> Seq<u16>
    decreases s.len(),
{
    if s.len() == 0 {
        seq![]
    } else {
        utf16_of(s.drop_last()) + utf16_of_char(s.last())
    }
}

/// Whether a zero unit occurs anywhere but at the very end.
pub open spec fn has_interior_nul(units: Seq<u16>) -> bool {
    exists|i: int| 0 <= i < units.len() - 1 && units[i] == 0
}

/// The units with a zero terminator, unless they already end with one.
pub open spec fn nul_terminated(units: Seq<u16>) -> Seq<u16> {
    if units.len() > 0 && units.last() == 0 {
        units
    } else {
        units.push(0)
    }
}

/// The code units, terminator included, that a `U16CString` holds.
pub uninterp spec fn wide_units(s: U16CString) -> Seq<u16>;

/// `U16CString::from_str`: encodes `s` as UTF-16 and fails exactly when a zero
/// unit occurs before the last unit; on success the string holds the encoding
/// followed by a terminator (not doubled when the encoding already ends in zero).
#[verifier::external_body]
fn u16cstring_from_str(s: &str) -> (res: Result<U16CString, ContainsNul<u16>>)
    ensures
        res is Ok <==> !has_interior_nul(utf16_of(s@)),
        res matches Ok(w) ==> wide_units(w) == nul_terminated(utf16_of(s@)),
{
    U16CString::from_str(s)
}

/// `U16CString::into_vec_with_nul`: the units the string holds, terminator included.
#[verifier::external_body]
fn u16cstring_into_vec_with_nul(s: U16CString) -> (res: Vec<u16>)
    ensures
        res@ == wide_units(s),
{
    s.into_vec_with_nul()
}

impl Il2CppString {
    /// The nul-terminated UTF-16 buffer from which the runtime creates the
    /// managed string holding `input`.
    pub fn wide_buffer(input: &str) -> (res: Vec<u16>)
        requires
            !has_interior_nul(utf16_of(input@)),
        ensures
            res@ == nul_terminated(utf16_of(input@)),
    {
        match u16cstring_from_str(input) {
            Ok(wide) => u16cstring_into_vec_with_nul(wide),
            // The precondition rules this case out.
            Err(_) => Vec::new(),
        }
    }
}


/// The buffer handed to the runtime ends with its only zero unit.
pub proof fn lemma_wide_buffer_terminated(units: Seq<u16>)
    requires
        !has_interior_nul(units),
    ensures
        nul_terminated(units).len() > 0,
        nul_terminated(units).last() == 0,
        forall|i: int| 0 <= i < nul_terminated(units).len() - 1 ==> nul_terminated(units)[i] != 0,
{
    if !(units.len() > 0 && units.last() == 0) {
        assert forall|i: int| 0 <= i < units.push(0).len() - 1 implies units.push(0)[i] != 0 by {
            if i == units.len() - 1 {
                assert(units.last() != 0);
            } else {
                assert(!(0 <= i < units.len() - 1 && units[i] == 0));
            }
        }
    } else {
        assert forall|i: int| 0 <= i < units.len() - 1 implies units[i] != 0 by {
            assert(!(0 <= i < units.len() - 1 && units[i] == 0));
        }
    }
}

} // verus!
