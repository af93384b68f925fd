//! The failure messages of a batch run.
//!
//! Three kinds of failure are folded into one flat list, so the wording
//! of each kind tells them apart: a malformed pattern, an entry that
//! could not be enumerated, and a file that failed to load or validate.

use vstd::prelude::*;
use vstd::string::StringExecFns;

use crate::digits::decimal_seq;
use crate::digits::push_decimal;
use crate::validator::CsvError;

verus! {

/// The wording of a structural CSV defect.
pub open spec fn csv_error_text(record: nat, expected: nat, found: nat) -> Seq<char> {
    "record "@ + decimal_seq(record) + " has "@ + decimal_seq(found)
        + " fields, but the first record has "@ + decimal_seq(expected) + " fields"@
}

impl CsvError {
    /// Renders the defect in words.
    pub fn describe(&self) -> (r: String)
        ensures
            r@ == csv_error_text(self.record as nat, self.expected as nat, self.found as nat),
    {
        let mut s = String::new();
        s.append("record ");
        push_decimal(self.record, &mut s);
        s.append(" has ");
        push_decimal(self.found, &mut s);
        s.append(" fields, but the first record has ");
        push_decimal(self.expected, &mut s);
        s.append(" fields");
        proof {
            assert(s@ =~= csv_error_text(
                self.record as nat,
                self.expected as nat,
                self.found as nat,
            ));
        }
        s
    }
}

/// The wording of an ill-formed UTF-8 stream.
pub open spec fn utf8_error_text(offset: nat) -> Seq<char> {
    "invalid UTF-8 at byte "@ + decimal_seq(offset)
}

/// Builds the message for an ill-formed UTF-8 stream.
pub fn format_utf8_error(offset: usize) -> (r: String)
    ensures
        r@ == utf8_error_text(offset as nat),
{
    let mut s = String::new();
    s.append("invalid UTF-8 at byte ");
    push_decimal(offset, &mut s);
    proof {
        assert(s@ =~= utf8_error_text(offset as nat));
    }
    s
}

/// The wording of a failure to load or validate the file at `path`.
pub open spec fn load_failure_text(path: Seq<char>, reason: Seq<char>) -> Seq<char> {
    "Failed to load "@ + path + ": "@ + reason
}

/// The wording of a failure to enumerate one entry of `pattern`.
pub open spec fn entry_error_text(pattern: Seq<char>, reason: Seq<char>) -> Seq<char> {
    "Error reading file "@ + pattern + ": "@ + reason
}

/// The wording of a malformed pattern.
pub open spec fn pattern_error_text(pattern: Seq<char>, reason: Seq<char>) -> Seq<char> {
    "Invalid file pattern "@ + pattern + ": "@ + reason
}

/// Builds the message for a file that failed to load or validate.
pub fn format_load_failure(path: &str, reason: &str) -> (r: String)
    ensures
        r@ == load_failure_text(path@, reason@),
{
    let mut s = String::new();
    s.append("Failed to load ");
    s.append(path);
    s.append(": ");
    s.append(reason);
    proof {
        assert(s@ =~= load_failure_text(path@, reason@));
    }
    s
}

/// Builds the message for an entry of `pattern` that could not be enumerated.
pub fn format_entry_error(pattern: &str, reason: &str) -> (r: String)
    ensures
        r@ == entry_error_text(pattern@, reason@),
{
    let mut s = String::new();
    s.append("Error reading file ");
    s.append(pattern);
    s.append(": ");
    s.append(reason);
    proof {
        assert(s@ =~= entry_error_text(pattern@, reason@));
    }
    s
}

/// Builds the message for a malformed pattern.
pub fn format_pattern_error(pattern: &str, reason: &str) -> (r: String)
    ensures
        r@ == pattern_error_text(pattern@, reason@),
{
    let mut s = String::new();
    s.append("Invalid file pattern ");
    s.append(pattern);
    s.append(": ");
    s.append(reason);
    proof {
        assert(s@ =~= pattern_error_text(pattern@, reason@));
    }
    s
}

} // verus!
