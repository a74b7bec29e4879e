//! Byte classification and the naming rules that variable values are held to.
//!
//! All engine text is handled as bytes: template files may be binary, and the
//! placeholder grammar is pure ASCII.

use vstd::prelude::*;

verus! {

/// The `{` byte, the opening half of a placeholder delimiter.
pub const LBRACE: u8 = 123;

/// The `}` byte, the closing half of a placeholder delimiter.
pub const RBRACE: u8 = 125;

/// Longest value accepted under the bounded naming rules.
pub const MAX_NAME_LEN: usize = 64;

pub open spec fn is_lower(b: u8) -> bool {
    97 <= b <= 122
}

pub open spec fn is_upper(b: u8) -> bool {
    65 <= b <= 90
}

pub open spec fn is_letter(b: u8) -> bool {
    is_lower(b) || is_upper(b)
}

pub open spec fn is_digit(b: u8) -> bool {
    48 <= b <= 57
}

/// Bytes that may continue a placeholder identifier: letters, digits, `_`.
pub open spec fn is_ident_char(b: u8) -> bool {
    is_letter(b) || is_digit(b) || b == 95
}

/// Bytes legal in a package name: lower-case letters, digits, `-`, `_`.
pub open spec fn is_package_char(b: u8) -> bool {
    is_lower(b) || is_digit(b) || b == 45 || b == 95
}

/// A bare identifier in a target ecosystem: non-empty, bounded, starts with a
/// letter, then letters, digits and underscores.
pub open spec fn valid_identifier(s: Seq<u8>) -> bool {
    &&& 1 <= s.len() <= MAX_NAME_LEN
    &&& is_letter(s[0])
    &&& forall|i: int| 0 <= i < s.len() ==> is_ident_char(s[i])
}

/// A package name: non-empty, bounded, lower case, hyphen- or
/// underscore-separated, and no leading digit or separator.
pub open spec fn valid_package_name(s: Seq<u8>) -> bool {
    &&& 1 <= s.len() <= MAX_NAME_LEN
    &&& is_lower(s[0])
    &&& forall|i: int| 0 <= i < s.len() ==> is_package_char(s[i])
}

pub fn byte_is_letter(b: u8) -> (r: bool)
    ensures
        r == is_letter(b),
{
    (b >= 65 && b <= 90) || (b >= 97 && b <= 122)
}

pub fn byte_is_ident_char(b: u8) -> (r: bool)
    ensures
        r == is_ident_char(b),
{
    byte_is_letter(b) || (b >= 48 && b <= 57) || b == 95
}

pub fn byte_is_package_char(b: u8) -> (r: bool)
    ensures
        r == is_package_char(b),
{
    (b >= 97 && b <= 122) || (b >= 48 && b <= 57) || b == 45 || b == 95
}

pub fn check_identifier(s: &Vec<u8>) -> (r: bool)
    ensures
        r == valid_identifier(s@),
{
    if s.len() == 0 || s.len() > MAX_NAME_LEN {
        return false;
    }
    if !byte_is_letter(s[0]) {
        return false;
    }
    let mut i: usize = 0;
    while i < s.len()
        invariant
            i <= s@.len(),
            forall|k: int| 0 <= k < i ==> is_ident_char(s@[k]),
        decreases s@.len() - i,
    {
        if !byte_is_ident_char(s[i]) {
            return false;
        }
        i += 1;
    }
    true
}

pub fn check_package_name(s: &Vec<u8>) -> (r: bool)
    ensures
        r == valid_package_name(s@),
{
    if s.len() == 0 || s.len() > MAX_NAME_LEN {
        return false;
    }
    if !(s[0] >= 97 && s[0] <= 122) {
        return false;
    }
    let mut i: usize = 0;
    while i < s.len()
        invariant
            i <= s@.len(),
            forall|k: int| 0 <= k < i ==> is_package_char(s@[k]),
        decreases s@.len() - i,
    {
        if !byte_is_package_char(s[i]) {
            return false;
        }
        i += 1;
    }
    true
}

/// Byte-wise equality of two byte strings.
pub fn bytes_eq(a: &Vec<u8>, b: &Vec<u8>) -> (r: bool)
    ensures
        r == (a@ == b@),
{
    if a.len() != b.len() {
        return false;
    }
    let mut i: usize = 0;
    while i < a.len()
        invariant
            i <= a@.len(),
            a@.len() == b@.len(),
            forall|k: int| 0 <= k < i ==> a@[k] == b@[k],
        decreases a@.len() - i,
    {
        if a[i] != b[i] {
            return false;
        }
        i += 1;
    }
    proof {
        assert(a@ =~= b@);
    }
    true
}

/// A fresh copy of a byte string.
pub fn copy_bytes(v: &Vec<u8>) -> (r: Vec<u8>)
    ensures
        r@ == v@,
{
    copy_range(v, 0, v.len())
}

/// A fresh copy of the bytes of `v` in positions `from..to`.
pub fn copy_range(v: &Vec<u8>, from: usize, to: usize) -> (r: Vec<u8>)
    requires
        from <= to <= v@.len(),
    ensures
        r@ == v@.subrange(from as int, to as int),
{
    let mut r: Vec<u8> = Vec::new();
    let mut i: usize = from;
    while i < to
        invariant
            from <= i <= to <= v@.len(),
            r@ == v@.subrange(from as int, i as int),
        decreases to - i,
    {
        r.push(v[i]);
        proof {
            assert(v@.subrange(from as int, i as int).push(v@[i as int]) =~= v@.subrange(
                from as int,
                i as int + 1,
            ));
        }
        i += 1;
    }
    r
}

/// Appends a copy of `src` to `dst`.
pub fn push_bytes(dst: &mut Vec<u8>, src: &Vec<u8>)
    ensures
        final(dst)@ == old(dst)@ + src@,
{
    let mut i: usize = 0;
    while i < src.len()
        invariant
            i <= src@.len(),
            dst@ == old(dst)@ + src@.subrange(0, i as int),
        decreases src@.len() - i,
    {
        dst.push(src[i]);
        proof {
            assert((old(dst)@ + src@.subrange(0, i as int)).push(src@[i as int]) =~= old(dst)@
                + src@.subrange(0, i as int + 1));
        }
        i += 1;
    }
    proof {
        assert(src@.subrange(0, src@.len() as int) =~= src@);
    }
}

} // verus!
