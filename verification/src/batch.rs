//! The batch orchestrator.
//!
//! A batch is an ordered list of file patterns.  The caller expands each
//! pattern against the filesystem and hands the library what it found:
//! the pattern was malformed, or each matched entry either failed to
//! enumerate, failed to read, or was read in full.  The orchestrator
//! validates every loaded file and folds all failures into one ordered
//! list — pattern order first, then enumeration order within a pattern —
//! never reordered and never cut short at the first failure.

use vstd::prelude::*;

use crate::encoding::scan_utf8;
use crate::encoding::utf8_first_invalid;
use crate::encoding::utf8_well_formed;
use crate::messages::csv_error_text;
use crate::messages::entry_error_text;
use crate::messages::format_entry_error;
use crate::messages::format_load_failure;
use crate::messages::format_pattern_error;
use crate::messages::format_utf8_error;
use crate::messages::load_failure_text;
use crate::messages::pattern_error_text;
use crate::messages::utf8_error_text;
use crate::validator::csv_rectangular;
use crate::validator::record_counts;
use crate::validator::validate_csv;
use crate::validator::validate_spec;

verus! {

/// What became of one entry yielded by expanding a pattern.
pub enum EntryOutcome {
    /// The entry resolved to `path` and its bytes were read in full.
    Loaded { path: String, content: Vec<u8> },
    /// The entry resolved to `path` but the file could not be read.
    ReadFailed { path: String, reason: String },
    /// The entry could not be enumerated at all.
    EnumFailed { reason: String },
}

/// What became of expanding one pattern.
pub enum PatternOutcome {
    /// The pattern itself was malformed.
    BadPattern { reason: String },
    /// The pattern expanded to these entries, in enumeration order.
    /// Zero entries is an ordinary outcome, not a failure.
    Entries { entries: Vec<EntryOutcome> },
}

/// One pattern of the batch together with its expansion.
pub struct PatternItem {
    /// The pattern as the caller supplied it.
    pub pattern: String,
    /// What expanding it produced.
    pub outcome: PatternOutcome,
}

/// The wording of the shape defect that validation reports for `data`.
pub open spec fn csv_reason(data: Seq<u8>) -> Seq<char> {
    let e = validate_spec(data)->Err_0;
    csv_error_text(e.record as nat, e.expected as nat, e.found as nat)
}

/// Whether the bytes of a file pass validation: well-formed UTF-8 text
/// whose records all have the field count of the first record.
pub open spec fn file_valid(data: Seq<u8>) -> bool {
    utf8_well_formed(data) && csv_rectangular(data)
}

/// The wording of the defect that validation reports for `data`: the
/// encoding is checked first, the record shape only on well-formed text.
pub open spec fn file_reason(data: Seq<u8>) -> Seq<char> {
    if !utf8_well_formed(data) {
        utf8_error_text(utf8_first_invalid(data)->Some_0 as nat)
    } else {
        csv_reason(data)
    }
}

/// Whether an entry counts as a failure.
pub open spec fn entry_fails(e: EntryOutcome) -> bool {
    match e {
        EntryOutcome::Loaded { path, content } => !file_valid(content@),
        EntryOutcome::ReadFailed { .. } => true,
        EntryOutcome::EnumFailed { .. } => true,
    }
}

/// The failure messages that one entry of `pattern` contributes.
pub open spec fn entry_failures(pattern: Seq<char>, e: EntryOutcome) -> Seq<Seq<char>> {
    match e {
        EntryOutcome::Loaded { path, content } => {
            if file_valid(content@) {
                Seq::<Seq<char>>::empty()
            } else {
                seq![load_failure_text(path@, file_reason(content@))]
            }
        },
        EntryOutcome::ReadFailed { path, reason } => seq![load_failure_text(path@, reason@)],
        EntryOutcome::EnumFailed { reason } => seq![entry_error_text(pattern, reason@)],
    }
}

/// The failure messages of the entries of `pattern` from position `j` on.
pub open spec fn entries_failures_from(
    pattern: Seq<char>,
    entries: Seq<EntryOutcome>,
    j: int,
) -> Seq<Seq<char>>
    decreases entries.len() - j,
{
    if j < 0 || j >= entries.len() {
        Seq::<Seq<char>>::empty()
    } else {
        entry_failures(pattern, entries[j]) + entries_failures_from(pattern, entries, j + 1)
    }
}

/// The failure messages that one pattern of the batch contributes.
pub open spec fn item_failures(item: PatternItem) -> Seq<Seq<char>> {
    match item.outcome {
        PatternOutcome::BadPattern { reason } => seq![
            pattern_error_text(item.pattern@, reason@),
        ],
        PatternOutcome::Entries { entries } => entries_failures_from(item.pattern@, entries@, 0),
    }
}

/// The failure messages of the batch from position `i` on.
pub open spec fn batch_failures_from(items: Seq<PatternItem>, i: int) -> Seq<Seq<char>>
    decreases items.len() - i,
{
    if i < 0 || i >= items.len() {
        Seq::<Seq<char>>::empty()
    } else {
        item_failures(items[i]) + batch_failures_from(items, i + 1)
    }
}

/// The failure messages of the whole batch, in encounter order.
pub open spec fn batch_failures(items: Seq<PatternItem>) -> Seq<Seq<char>> {
    batch_failures_from(items, 0)
}

/// Whether the field counts of a loaded entry fit the machine word.
pub open spec fn entry_fits(e: EntryOutcome) -> bool {
    match e {
        EntryOutcome::Loaded { path, content } => content@.len() < usize::MAX,
        _ => true,
    }
}

/// Whether every loaded entry of one pattern fits the machine word.
pub open spec fn item_fits(item: PatternItem) -> bool {
    match item.outcome {
        PatternOutcome::BadPattern { .. } => true,
        PatternOutcome::Entries { entries } => forall|j: int|
            0 <= j < entries@.len() ==> #[trigger] entry_fits(entries@[j]),
    }
}

/// Validates a whole batch.
///
/// Returns `Ok(())` when no pattern was malformed, every entry
/// enumerated and read, and every loaded file is well-formed UTF-8
/// and rectangular CSV; otherwise returns every failure message, in
/// encounter order.
pub fn process_csv_files(items: Vec<PatternItem>) -> (r: Result<(), Vec<String>>)
    requires
        forall|i: int| 0 <= i < items@.len() ==> #[trigger] item_fits(items@[i]),
    ensures
        r is Ok <==> batch_failures(items@).len() == 0,
        r is Err ==> r->Err_0@.map_values(|s: String| s@) == batch_failures(items@),
{
    let ghost all: Seq<Seq<char>> = batch_failures(items@);
    let mut errors: Vec<String> = Vec::new();
    let mut i: usize = 0;
    while i < items.len()
        invariant
            forall|k: int| 0 <= k < items@.len() ==> #[trigger] item_fits(items@[k]),
            i <= items@.len(),
            all == batch_failures(items@),
            all =~= errors@.map_values(|s: String| s@) + batch_failures_from(items@, i as int),
        decreases items@.len() - i,
    {
        let item = &items[i];
        proof {
            assert(batch_failures_from(items@, i as int) == item_failures(items@[i as int])
                + batch_failures_from(items@, i as int + 1));
        }
        match &item.outcome {
            PatternOutcome::BadPattern { reason } => {
                let msg = format_pattern_error(item.pattern.as_str(), reason.as_str());
                proof {
                    assert(errors@.push(msg).map_values(|s: String| s@) =~= errors@.map_values(
                        |s: String| s@,
                    ).push(msg@));
                }
                errors.push(msg);
                proof {
                    assert(all =~= errors@.map_values(|s: String| s@) + batch_failures_from(
                        items@,
                        i as int + 1,
                    ));
                }
            },
            PatternOutcome::Entries { entries } => {
                let mut j: usize = 0;
                while j < entries.len()
                    invariant
                        item_fits(items@[i as int]),
                        i < items@.len(),
                        *item == items@[i as int],
                        items@[i as int].outcome == (PatternOutcome::Entries {
                            entries: *entries,
                        }),
                        j <= entries@.len(),
                        all == batch_failures(items@),
                        all =~= errors@.map_values(|s: String| s@) + entries_failures_from(
                            items@[i as int].pattern@,
                            entries@,
                            j as int,
                        ) + batch_failures_from(items@, i as int + 1),
                    decreases entries@.len() - j,
                {
                    let entry = &entries[j];
                    proof {
                        assert(entries_failures_from(
                            items@[i as int].pattern@,
                            entries@,
                            j as int,
                        ) == entry_failures(items@[i as int].pattern@, entries@[j as int])
                            + entries_failures_from(
                            items@[i as int].pattern@,
                            entries@,
                            j as int + 1,
                        ));
                        let es = items@[i as int].outcome->Entries_entries;
                        assert(es == *entries);
                        assert(entry_fits(es@[j as int]));
                        assert(entry_fits(entries@[j as int]));
                    }
                    match entry {
                        EntryOutcome::Loaded { path, content } => {
                            match scan_utf8(content) {
                                Some(p) => {
                                    let reason = format_utf8_error(p);
                                    let msg = format_load_failure(path.as_str(), reason.as_str());
                                    proof {
                                        assert(msg@ == load_failure_text(
                                            path@,
                                            file_reason(content@),
                                        ));
                                        assert(errors@.push(msg).map_values(|s: String| s@)
                                            =~= errors@.map_values(|s: String| s@).push(msg@));
                                    }
                                    errors.push(msg);
                                },
                                None => {
                                    match validate_csv(content) {
                                        Ok(_) => {
                                            proof {
                                                assert(file_valid(content@));
                                            }
                                        },
                                        Err(e) => {
                                            let reason = e.describe();
                                            let msg = format_load_failure(
                                                path.as_str(),
                                                reason.as_str(),
                                            );
                                            proof {
                                                assert(msg@ == load_failure_text(
                                                    path@,
                                                    file_reason(content@),
                                                ));
                                                assert(errors@.push(msg).map_values(
                                                    |s: String| s@,
                                                ) =~= errors@.map_values(|s: String| s@).push(
                                                    msg@,
                                                ));
                                            }
                                            errors.push(msg);
                                        },
                                    }
                                },
                            }
                        },
                        EntryOutcome::ReadFailed { path, reason } => {
                            let msg = format_load_failure(path.as_str(), reason.as_str());
                            proof {
                                assert(errors@.push(msg).map_values(|s: String| s@)
                                    =~= errors@.map_values(|s: String| s@).push(msg@));
                            }
                            errors.push(msg);
                        },
                        EntryOutcome::EnumFailed { reason } => {
                            let msg = format_entry_error(item.pattern.as_str(), reason.as_str());
                            proof {
                                assert(errors@.push(msg).map_values(|s: String| s@)
                                    =~= errors@.map_values(|s: String| s@).push(msg@));
                            }
                            errors.push(msg);
                        },
                    }
                    proof {
                        assert(all =~= errors@.map_values(|s: String| s@) + entries_failures_from(
                            items@[i as int].pattern@,
                            entries@,
                            j as int + 1,
                        ) + batch_failures_from(items@, i as int + 1));
                    }
                    j = j + 1;
                }
                proof {
                    assert(entries_failures_from(
                        items@[i as int].pattern@,
                        entries@,
                        j as int,
                    ) =~= Seq::<Seq<char>>::empty());
                    assert(all =~= errors@.map_values(|s: String| s@) + batch_failures_from(
                        items@,
                        i as int + 1,
                    ));
                }
            },
        }
        i = i + 1;
    }
    proof {
        assert(batch_failures_from(items@, i as int) =~= Seq::<Seq<char>>::empty());
        assert(all =~= errors@.map_values(|s: String| s@));
    }
    if errors.len() == 0 {
        Ok(())
    } else {
        Err(errors)
    }
}


/// How many failing units one entry contributes: one for an entry that
/// fails, none for one that validates.
pub open spec fn entries_failure_count_from(entries: Seq<EntryOutcome>, j: int) -> nat
    decreases entries.len() - j,
{
    if j < 0 || j >= entries.len() {
        0
    } else {
        (if entry_fails(entries[j]) {
            1nat
        } else {
            0nat
        }) + entries_failure_count_from(entries, j + 1)
    }
}

/// How many failing units one pattern contributes.
pub open spec fn item_failure_count(item: PatternItem) -> nat {
    match item.outcome {
        PatternOutcome::BadPattern { .. } => 1,
        PatternOutcome::Entries { entries } => entries_failure_count_from(entries@, 0),
    }
}

/// How many failing units the batch holds from position `i` on.
pub open spec fn batch_failure_count_from(items: Seq<PatternItem>, i: int) -> nat
    decreases items.len() - i,
{
    if i < 0 || i >= items.len() {
        0
    } else {
        item_failure_count(items[i]) + batch_failure_count_from(items, i + 1)
    }
}

/// How many failing units the whole batch holds.
pub open spec fn batch_failure_count(items: Seq<PatternItem>) -> nat {
    batch_failure_count_from(items, 0)
}

proof fn lemma_entries_failures_len(pattern: Seq<char>, entries: Seq<EntryOutcome>, j: int)
    ensures
        entries_failures_from(pattern, entries, j).len() == entries_failure_count_from(entries, j),
    decreases entries.len() - j,
{
    if 0 <= j < entries.len() {
        lemma_entries_failures_len(pattern, entries, j + 1);
    }
}

proof fn lemma_batch_failures_len_from(items: Seq<PatternItem>, i: int)
    ensures
        batch_failures_from(items, i).len() == batch_failure_count_from(items, i),
    decreases items.len() - i,
{
    if 0 <= i < items.len() {
        match items[i].outcome {
            PatternOutcome::BadPattern { .. } => {},
            PatternOutcome::Entries { entries } => {
                lemma_entries_failures_len(items[i].pattern@, entries@, 0);
            },
        }
        lemma_batch_failures_len_from(items, i + 1);
    }
}

/// The failure list of a batch has exactly one entry per failing unit —
/// a malformed pattern, an entry that could not be enumerated, a file
/// that could not be read, or a file that is not rectangular CSV —
/// while every unit that succeeds contributes nothing.
pub proof fn lemma_failure_count(items: Seq<PatternItem>)
    ensures
        batch_failures(items).len() == batch_failure_count(items),
{
    lemma_batch_failures_len_from(items, 0);
}

/// A pattern that expands to zero files contributes no failure entries.
pub proof fn lemma_empty_expansion(item: PatternItem)
    requires
        item.outcome matches PatternOutcome::Entries { entries } && entries@.len() == 0,
    ensures
        item_failures(item) == Seq::<Seq<char>>::empty(),
{
}


/// A well-formed rectangular file contributes no failure entries.
pub proof fn lemma_well_formed_file_silent(pattern: Seq<char>, path: String, content: Vec<u8>)
    requires
        utf8_well_formed(content@),
        csv_rectangular(content@),
    ensures
        entry_failures(pattern, (EntryOutcome::Loaded { path, content }))
            == Seq::<Seq<char>>::empty(),
{
}

/// A file with a record whose field count differs from the first
/// record's contributes exactly one failure entry; when its text is
/// well-formed, that entry names the file and the offending counts.
pub proof fn lemma_mismatched_file_reported(pattern: Seq<char>, path: String, content: Vec<u8>)
    requires
        exists|j: int|
            0 <= j < record_counts(content@).len() && #[trigger] record_counts(content@)[j]
                != record_counts(content@)[0],
    ensures
        entry_failures(pattern, (EntryOutcome::Loaded { path, content })).len() == 1,
        utf8_well_formed(content@) ==> entry_failures(
            pattern,
            (EntryOutcome::Loaded { path, content }),
        ) == seq![load_failure_text(path@, csv_reason(content@))],
{
    assert(!csv_rectangular(content@));
}

} // verus!
