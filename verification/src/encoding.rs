//! UTF-8 well-formedness of a byte stream.
//!
//! A file is read as text, so a stream whose bytes are not well-formed
//! UTF-8 fails validation before its shape is even looked at.  The
//! accepted sequences are those of RFC 3629: no overlong forms, no
//! surrogates, nothing above U+10FFFF.

use vstd::prelude::*;

verus! {

/// Whether `b` is a UTF-8 continuation byte.
pub open spec fn is_cont(b: u8) -> bool {
    0x80 <= b <= 0xBF
}

/// Scans `data` from position `i` and gives the position of the first
/// byte that starts an ill-formed sequence, or `None` when the rest of
/// the stream is well-formed UTF-8.
pub open spec fn utf8_scan_from(data: Seq<u8>, i: int) -> Option<int>
    decreases data.len() - i,
{
    if i < 0 || i >= data.len() {
        None
    } else {
        let b0 = data[i];
        if b0 < 0x80 {
            utf8_scan_from(data, i + 1)
        } else if 0xC2 <= b0 <= 0xDF {
            if i + 2 <= data.len() && is_cont(data[i + 1]) {
                utf8_scan_from(data, i + 2)
            } else {
                Some(i)
            }
        } else if b0 == 0xE0 {
            if i + 3 <= data.len() && 0xA0 <= data[i + 1] <= 0xBF && is_cont(data[i + 2]) {
                utf8_scan_from(data, i + 3)
            } else {
                Some(i)
            }
        } else if 0xE1 <= b0 <= 0xEC || 0xEE <= b0 <= 0xEF {
            if i + 3 <= data.len() && is_cont(data[i + 1]) && is_cont(data[i + 2]) {
                utf8_scan_from(data, i + 3)
            } else {
                Some(i)
            }
        } else if b0 == 0xED {
            if i + 3 <= data.len() && 0x80 <= data[i + 1] <= 0x9F && is_cont(data[i + 2]) {
                utf8_scan_from(data, i + 3)
            } else {
                Some(i)
            }
        } else if b0 == 0xF0 {
            if i + 4 <= data.len() && 0x90 <= data[i + 1] <= 0xBF && is_cont(data[i + 2])
                && is_cont(data[i + 3]) {
                utf8_scan_from(data, i + 4)
            } else {
                Some(i)
            }
        } else if 0xF1 <= b0 <= 0xF3 {
            if i + 4 <= data.len() && is_cont(data[i + 1]) && is_cont(data[i + 2]) && is_cont(
                data[i + 3],
            ) {
                utf8_scan_from(data, i + 4)
            } else {
                Some(i)
            }
        } else if b0 == 0xF4 {
            if i + 4 <= data.len() && 0x80 <= data[i + 1] <= 0x8F && is_cont(data[i + 2])
                && is_cont(data[i + 3]) {
                utf8_scan_from(data, i + 4)
            } else {
                Some(i)
            }
        } else {
            Some(i)
        }
    }
}

/// The position of the first ill-formed sequence of `data`, if any.
pub open spec fn utf8_first_invalid(data: Seq<u8>) -> Option<int> {
    utf8_scan_from(data, 0)
}

/// Whether `data` is well-formed UTF-8 from start to end.
pub open spec fn utf8_well_formed(data: Seq<u8>) -> bool {
    utf8_first_invalid(data) is None
}

fn exec_is_cont(b: u8) -> (r: bool)
    ensures
        r == is_cont(b),
{
    0x80 <= b && b <= 0xBF
}

/// Scans `data` and reports the position of the first byte that starts
/// an ill-formed UTF-8 sequence, or `None` when the whole stream is
/// well-formed.
pub fn scan_utf8(data: &Vec<u8>) -> (r: Option<usize>)
    ensures
        r is None <==> utf8_well_formed(data@),
        r is Some ==> utf8_first_invalid(data@) == Some(r->0 as int),
{
    let n = data.len();
    let mut i: usize = 0;
    while i < n
        invariant
            n == data@.len(),
            i <= n,
            utf8_first_invalid(data@) == utf8_scan_from(data@, i as int),
        decreases n - i,
    {
        let b0 = data[i];
        if b0 < 0x80 {
            i = i + 1;
        } else if 0xC2 <= b0 && b0 <= 0xDF {
            if n - i >= 2 && exec_is_cont(data[i + 1]) {
                i = i + 2;
            } else {
                return Some(i);
            }
        } else if b0 == 0xE0 {
            if n - i >= 3 && 0xA0 <= data[i + 1] && data[i + 1] <= 0xBF && exec_is_cont(
                data[i + 2],
            ) {
                i = i + 3;
            } else {
                return Some(i);
            }
        } else if (0xE1 <= b0 && b0 <= 0xEC) || (0xEE <= b0 && b0 <= 0xEF) {
            if n - i >= 3 && exec_is_cont(data[i + 1]) && exec_is_cont(data[i + 2]) {
                i = i + 3;
            } else {
                return Some(i);
            }
        } else if b0 == 0xED {
            if n - i >= 3 && 0x80 <= data[i + 1] && data[i + 1] <= 0x9F && exec_is_cont(
                data[i + 2],
            ) {
                i = i + 3;
            } else {
                return Some(i);
            }
        } else if b0 == 0xF0 {
            if n - i >= 4 && 0x90 <= data[i + 1] && data[i + 1] <= 0xBF && exec_is_cont(
                data[i + 2],
            ) && exec_is_cont(data[i + 3]) {
                i = i + 4;
            } else {
                return Some(i);
            }
        } else if 0xF1 <= b0 && b0 <= 0xF3 {
            if n - i >= 4 && exec_is_cont(data[i + 1]) && exec_is_cont(data[i + 2]) && exec_is_cont(
                data[i + 3],
            ) {
                i = i + 4;
            } else {
                return Some(i);
            }
        } else if b0 == 0xF4 {
            if n - i >= 4 && 0x80 <= data[i + 1] && data[i + 1] <= 0x8F && exec_is_cont(
                data[i + 2],
            ) && exec_is_cont(data[i + 3]) {
                i = i + 4;
            } else {
                return Some(i);
            }
        } else {
            return Some(i);
        }
    }
    None
}

} // verus!
