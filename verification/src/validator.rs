//! Structural validation of CSV byte streams.
//!
//! A byte stream is scanned record by record.  Records are separated by
//! line terminators (`\n`, `\r`, or `\r\n`); blank lines yield no record.
//! Within a record, fields are separated by commas; a field that begins
//! with a double quote is read in quoted mode, where commas and line
//! terminators are ordinary content and `""` stands for a literal quote.
//! The stream is structurally well-formed when every record has the same
//! number of fields as the first record.

use vstd::prelude::*;

verus! {

/// Line feed byte.
pub const LF: u8 = 10;

/// Carriage return byte.
pub const CR: u8 = 13;

/// Double quote byte.
pub const QUOTE: u8 = 34;

/// Comma byte, the field separator.
pub const COMMA: u8 = 44;

/// Scanner state between two bytes of a CSV stream.
#[derive(Clone, Copy, Debug)]
pub enum Mode {
    /// Before the first byte of a record; no record is in progress.
    StartRecord,
    /// A record is in progress and a new (possibly empty) field begins here.
    StartField,
    /// Inside an unquoted field.
    Unquoted,
    /// Inside a quoted field.
    Quoted,
    /// Inside a quoted field, just after a quote byte.
    QuoteInQuoted,
}

/// Whether a line terminator byte ends the current record in this mode.
pub open spec fn emits(mode: Mode, b: u8) -> bool {
    &&& (b == LF || b == CR)
    &&& match mode {
        Mode::StartRecord => false,
        Mode::StartField => true,
        Mode::Unquoted => true,
        Mode::Quoted => false,
        Mode::QuoteInQuoted => true,
    }
}

/// The scanner state after reading byte `b` in state `mode`.
pub open spec fn step_mode(mode: Mode, b: u8) -> Mode {
    match mode {
        Mode::StartRecord | Mode::StartField => {
            if b == LF || b == CR {
                Mode::StartRecord
            } else if b == COMMA {
                Mode::StartField
            } else if b == QUOTE {
                Mode::Quoted
            } else {
                Mode::Unquoted
            }
        },
        Mode::Unquoted => {
            if b == LF || b == CR {
                Mode::StartRecord
            } else if b == COMMA {
                Mode::StartField
            } else {
                Mode::Unquoted
            }
        },
        Mode::Quoted => {
            if b == QUOTE {
                Mode::QuoteInQuoted
            } else {
                Mode::Quoted
            }
        },
        Mode::QuoteInQuoted => {
            if b == QUOTE {
                Mode::Quoted
            } else if b == LF || b == CR {
                Mode::StartRecord
            } else if b == COMMA {
                Mode::StartField
            } else {
                Mode::Unquoted
            }
        },
    }
}

/// The number of completed fields of the current record after reading
/// byte `b` in state `mode` with `fields` fields completed so far.
pub open spec fn step_fields(mode: Mode, b: u8, fields: nat) -> nat {
    match mode {
        Mode::StartRecord => {
            if b == COMMA {
                1
            } else {
                0
            }
        },
        Mode::StartField | Mode::Unquoted => {
            if b == LF || b == CR {
                0
            } else if b == COMMA {
                (fields + 1) as nat
            } else {
                fields
            }
        },
        Mode::Quoted => fields,
        Mode::QuoteInQuoted => {
            if b == QUOTE {
                fields
            } else if b == LF || b == CR {
                0
            } else if b == COMMA {
                (fields + 1) as nat
            } else {
                fields
            }
        },
    }
}

/// The field counts of the records emitted while scanning `data`,
/// starting in state `mode` with `fields` fields completed so far.
pub open spec fn counts_from(data: Seq<u8>, mode: Mode, fields: nat) -> Seq<nat>
    decreases data.len(),
{
    if data.len() == 0 {
        match mode {
            Mode::StartRecord => Seq::<nat>::empty(),
            _ => seq![(fields + 1) as nat],
        }
    } else {
        let b = data[0];
        let head: Seq<nat> = if emits(mode, b) {
            seq![(fields + 1) as nat]
        } else {
            Seq::<nat>::empty()
        };
        head + counts_from(data.drop_first(), step_mode(mode, b), step_fields(mode, b, fields))
    }
}

/// The field count of every record of `data`, in order of appearance.
pub open spec fn record_counts(data: Seq<u8>) -> Seq<nat> {
    counts_from(data, Mode::StartRecord, 0)
}

/// A stream is rectangular when every record has as many fields as the first.
pub open spec fn csv_rectangular(data: Seq<u8>) -> bool {
    let counts = record_counts(data);
    forall|j: int| 0 <= j < counts.len() ==> #[trigger] counts[j] == counts[0]
}

/// The position of the first record whose field count differs from the
/// first record's, looking from position `i` on.
pub open spec fn first_mismatch_from(counts: Seq<nat>, i: nat) -> Option<nat>
    decreases counts.len() - i,
{
    if i >= counts.len() {
        None
    } else if counts[i as int] != counts[0] {
        Some(i)
    } else {
        first_mismatch_from(counts, (i + 1) as nat)
    }
}

/// A structural defect of a CSV stream: the record at index `record`
/// (0-based, counting records as they appear) has `found` fields while
/// the first record has `expected` fields.
#[derive(Clone, Copy, Debug, PartialEq, Eq, Structural)]
pub struct CsvError {
    /// Index of the offending record.
    pub record: usize,
    /// Field count of the first record.
    pub expected: usize,
    /// Field count of the offending record.
    pub found: usize,
}

/// The outcome of validating `data`: `Ok` when the stream is rectangular,
/// otherwise the first defect.
pub open spec fn validate_spec(data: Seq<u8>) -> Result<(), CsvError> {
    let counts = record_counts(data);
    match first_mismatch_from(counts, 0) {
        None => Ok(()),
        Some(m) => Err(
            CsvError {
                record: m as usize,
                expected: counts[0] as usize,
                found: counts[m as int] as usize,
            },
        ),
    }
}

proof fn lemma_first_mismatch_some(counts: Seq<nat>, i: nat, m: nat)
    requires
        i <= m < counts.len(),
        counts[m as int] != counts[0],
        forall|j: int| 0 <= j < m ==> #[trigger] counts[j] == counts[0],
    ensures
        first_mismatch_from(counts, i) == Some(m),
    decreases m - i,
{
    if i < m {
        lemma_first_mismatch_some(counts, (i + 1) as nat, m);
    }
}

proof fn lemma_first_mismatch_none(counts: Seq<nat>, i: nat)
    requires
        forall|j: int| 0 <= j < counts.len() ==> #[trigger] counts[j] == counts[0],
    ensures
        first_mismatch_from(counts, i) is None,
    decreases counts.len() - i,
{
    if i < counts.len() {
        lemma_first_mismatch_none(counts, (i + 1) as nat);
    }
}

/// Every rectangular stream validates: no defect is reported.
pub proof fn lemma_rectangular_validates(data: Seq<u8>)
    requires
        csv_rectangular(data),
    ensures
        validate_spec(data) is Ok,
{
    lemma_first_mismatch_none(record_counts(data), 0);
}

/// Any stream with a record whose field count differs from the first
/// record's fails validation.
pub proof fn lemma_mismatch_fails(data: Seq<u8>)
    requires
        exists|j: int|
            0 <= j < record_counts(data).len() && #[trigger] record_counts(data)[j]
                != record_counts(data)[0],
    ensures
        validate_spec(data) is Err,
{
    if first_mismatch_from(record_counts(data), 0) is None {
        lemma_first_mismatch_none_implies_equal(record_counts(data), 0);
    }
}

proof fn lemma_first_mismatch_none_implies_equal(counts: Seq<nat>, i: nat)
    requires
        first_mismatch_from(counts, i) is None,
    ensures
        forall|j: int| i <= j < counts.len() ==> #[trigger] counts[j] == counts[0],
    decreases counts.len() - i,
{
    if i < counts.len() {
        lemma_first_mismatch_none_implies_equal(counts, (i + 1) as nat);
    }
}

/// Validation is a function of the byte content alone: two outcomes
/// obtained for the same content are the same outcome.
pub proof fn lemma_validation_idempotent(
    data: Seq<u8>,
    r1: Result<(), CsvError>,
    r2: Result<(), CsvError>,
)
    requires
        r1 == validate_spec(data),
        r2 == validate_spec(data),
    ensures
        r1 == r2,
{
}

fn exec_emits(mode: Mode, b: u8) -> (r: bool)
    ensures
        r == emits(mode, b),
{
    if b == LF || b == CR {
        match mode {
            Mode::StartRecord => false,
            Mode::StartField => true,
            Mode::Unquoted => true,
            Mode::Quoted => false,
            Mode::QuoteInQuoted => true,
        }
    } else {
        false
    }
}

fn exec_step(mode: Mode, b: u8, fields: usize) -> (r: (Mode, usize))
    requires
        fields < usize::MAX,
    ensures
        r.0 == step_mode(mode, b),
        r.1 as nat == step_fields(mode, b, fields as nat),
{
    match mode {
        Mode::StartRecord => {
            if b == LF || b == CR {
                (Mode::StartRecord, 0)
            } else if b == COMMA {
                (Mode::StartField, 1)
            } else if b == QUOTE {
                (Mode::Quoted, 0)
            } else {
                (Mode::Unquoted, 0)
            }
        },
        Mode::StartField | Mode::Unquoted => {
            let quoting = matches!(mode, Mode::StartField);
            if b == LF || b == CR {
                (Mode::StartRecord, 0)
            } else if b == COMMA {
                (Mode::StartField, fields + 1)
            } else if b == QUOTE && quoting {
                (Mode::Quoted, fields)
            } else {
                (Mode::Unquoted, fields)
            }
        },
        Mode::Quoted => {
            if b == QUOTE {
                (Mode::QuoteInQuoted, fields)
            } else {
                (Mode::Quoted, fields)
            }
        },
        Mode::QuoteInQuoted => {
            if b == QUOTE {
                (Mode::Quoted, fields)
            } else if b == LF || b == CR {
                (Mode::StartRecord, 0)
            } else if b == COMMA {
                (Mode::StartField, fields + 1)
            } else {
                (Mode::Unquoted, fields)
            }
        },
    }
}

/// Scans `data` as CSV and reports whether it is rectangular.
///
/// Returns `Ok(())` exactly when every record has as many fields as the
/// first record; otherwise reports the first offending record together
/// with the two field counts.
pub fn validate_csv(data: &Vec<u8>) -> (r: Result<(), CsvError>)
    requires
        data@.len() < usize::MAX,
    ensures
        r == validate_spec(data@),
        r is Ok <==> csv_rectangular(data@),
{
    let ghost all: Seq<nat> = record_counts(data@);
    let mut mode = Mode::StartRecord;
    let mut fields: usize = 0;
    let mut idx: usize = 0;
    let mut first: usize = 0;
    let mut i: usize = 0;
    proof {
        assert(data@.skip(0) =~= data@);
        assert(all.take(0) =~= Seq::<nat>::empty());
        assert(all =~= all.take(0) + counts_from(data@.skip(0), Mode::StartRecord, 0));
    }
    while i < data.len()
        invariant
            data@.len() < usize::MAX,
            i <= data@.len(),
            fields <= i,
            all == record_counts(data@),
            all =~= all.take(idx as int) + counts_from(
                data@.skip(i as int),
                mode,
                fields as nat,
            ),
            idx as int <= all.len(),
            idx <= i,
            idx == 0 ==> first == 0,
            idx > 0 ==> all[0] == first as nat,
            forall|j: int| 0 <= j < idx ==> #[trigger] all[j] == all[0],
        decreases data@.len() - i,
    {
        let b = data[i];
        proof {
            let s = data@.skip(i as int);
            assert(s.len() > 0);
            assert(s[0] == data@[i as int]);
            assert(s.drop_first() =~= data@.skip(i as int + 1));
        }
        let em = exec_emits(mode, b);
        if em {
            let c = fields + 1;
            proof {
                assert(counts_from(data@.skip(i as int), mode, fields as nat) == seq![
                    c as nat,
                ] + counts_from(
                    data@.skip(i as int + 1),
                    step_mode(mode, b),
                    step_fields(mode, b, fields as nat),
                ));
                assert(all[idx as int] == c as nat);
            }
            if idx == 0 {
                first = c;
            } else if c != first {
                proof {
                    lemma_first_mismatch_some(all, 0, idx as nat);
                    assert(all[idx as int] != all[0]);
                }
                return Err(CsvError { record: idx, expected: first, found: c });
            }
            proof {
                assert(all.take(idx as int + 1) =~= all.take(idx as int) + seq![c as nat]);
                assert(all =~= all.take(idx as int + 1) + counts_from(
                    data@.skip(i as int + 1),
                    step_mode(mode, b),
                    step_fields(mode, b, fields as nat),
                ));
            }
            idx = idx + 1;
        } else {
            proof {
                assert(counts_from(data@.skip(i as int), mode, fields as nat) == counts_from(
                    data@.skip(i as int + 1),
                    step_mode(mode, b),
                    step_fields(mode, b, fields as nat),
                ));
            }
        }
        let sr = exec_step(mode, b, fields);
        mode = sr.0;
        fields = sr.1;
        i = i + 1;
    }
    proof {
        assert(data@.skip(i as int).len() == 0);
    }
    let in_record = match mode {
        Mode::StartRecord => false,
        _ => true,
    };
    if in_record {
        let c = fields + 1;
        proof {
            assert(counts_from(data@.skip(i as int), mode, fields as nat) =~= seq![c as nat]);
            assert(all =~= all.take(idx as int).push(c as nat));
            assert(all[idx as int] == c as nat);
        }
        if idx > 0 && c != first {
            proof {
                lemma_first_mismatch_some(all, 0, idx as nat);
                assert(all[idx as int] != all[0]);
            }
            return Err(CsvError { record: idx, expected: first, found: c });
        }
        proof {
            assert(forall|j: int| 0 <= j < all.len() ==> #[trigger] all[j] == all[0]);
            lemma_first_mismatch_none(all, 0);
        }
        Ok(())
    } else {
        proof {
            assert(counts_from(data@.skip(i as int), mode, fields as nat) =~= Seq::<nat>::empty());
            assert(all =~= all.take(idx as int));
            assert(forall|j: int| 0 <= j < all.len() ==> #[trigger] all[j] == all[0]);
            lemma_first_mismatch_none(all, 0);
        }
        Ok(())
    }
}

} // verus!
