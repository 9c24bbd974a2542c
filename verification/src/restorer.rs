//! Restoring pins: each checkout named in a pin file is pointed at the
//! commit recorded for it.
//!
//! Lines are applied in the order of the file. The first line that fails
//! stops the work; the checkouts of the lines before it have been moved by
//! then and stay where they were moved to.

use vstd::prelude::*;
use crate::error::{at_step, ErrorKind, PinError};
use crate::git::{child_path, open_repository};
use crate::identifier::{is_identifier_text, lemma_canonical_is_identifier_text};
use crate::pin_file::{
    is_plain_name, is_recordable, lemma_canonical_pin_is_recordable, lemma_round_trip, lines_of,
    parse_line, parse_pin_line, render, split_lines, texts_of, Pin, PinRecord,
};
use crate::recorder::{checkout_names, is_snapshot_of, lemma_snapshot_is_complete, Entry};

verus! {

/// Whether `line` names a checkout and an identifier of the right form, so
/// that only the repository can refuse it.
pub open spec fn is_sound_line(line: Seq<char>) -> bool {
    parse_line(line) matches Some(pin) && is_identifier_text(pin.identifier)
}

/// Whether applying `line` can end in a failure of kind `kind`.
///
/// A line is taken apart first, then the checkout it names is opened, then
/// its identifier is read, then the checkout is moved. So a line that
/// cannot be taken apart fails as such and in no other way; a repository
/// may refuse to open for any line that can; the identifier is found
/// wanting only where it is; and only a sound line gets as far as the
/// commit being looked for.
pub open spec fn may_fail_with(line: Seq<char>, kind: ErrorKind) -> bool {
    match kind {
        ErrorKind::PinLineParse => parse_line(line) is None,
        ErrorKind::RepositoryOpen => parse_line(line) is Some,
        ErrorKind::InvalidIdentifier => parse_line(line) is Some && !is_sound_line(line),
        ErrorKind::ObjectNotFound => is_sound_line(line),
        ErrorKind::HeadResolution => false,
    }
}

/// Whether `outcome` can be what applying `line`, the line at `index`,
/// ends in.
pub open spec fn line_outcome_fits(
    line: Seq<char>,
    index: usize,
    outcome: Result<(), PinError>,
) -> bool {
    match outcome {
        Ok(()) => is_sound_line(line),
        Err(e) => {
            &&& e.index == index
            &&& may_fail_with(line, e.kind)
            &&& e.cause is None <==> e.kind == ErrorKind::PinLineParse
        },
    }
}

/// Whether `outcome` can be what applying `lines` in order ends in.
///
/// Success means that every line was sound. A failure names a line; every
/// line before it was sound and has been applied, and the failure is one
/// that the named line can end in.
pub open spec fn restore_outcome_fits(lines: Seq<Seq<char>>, outcome: Result<(), PinError>) -> bool {
    match outcome {
        Ok(()) => forall|i: int| 0 <= i < lines.len() ==> is_sound_line(#[trigger] lines[i]),
        Err(e) => {
            &&& e.index < lines.len()
            &&& forall|i: int| 0 <= i < e.index ==> is_sound_line(#[trigger] lines[i])
            &&& line_outcome_fits(lines[e.index as int], e.index, outcome)
        },
    }
}

/// Points the checkout that `record` names, beneath `pt_path`, at the
/// commit that `record` holds. `index` is the position of the record's
/// line, for the error.
///
/// The checkout is opened before the identifier is looked at, so a
/// checkout that is missing is reported as such whatever the identifier.
pub fn restore_pin(pt_path: &str, index: usize, record: &PinRecord) -> (r: Result<(), PinError>)
    ensures
        r is Ok ==> is_identifier_text(record.identifier@),
        r matches Err(e) ==> {
            &&& e.index == index
            &&& e.cause is Some
            &&& e.kind == ErrorKind::RepositoryOpen || e.kind == ErrorKind::InvalidIdentifier
                || e.kind == ErrorKind::ObjectNotFound
            &&& e.kind == ErrorKind::InvalidIdentifier ==> !is_identifier_text(record.identifier@)
            &&& e.kind == ErrorKind::ObjectNotFound ==> is_identifier_text(record.identifier@)
        },
{
    let path = child_path(pt_path, record.name.as_str());
    restore_opened(open_repository(&path), index, record.identifier.as_str())
}

/// What opening the checkout of a line comes to. Where the repository
/// could not be opened, that is the failure, whatever the identifier is
/// like. Where it was opened, the identifier is read: one that does not
/// have the form of an identifier is refused as such, and only one that
/// has is looked for in the repository.
pub fn restore_opened(
    opened: Result<git2::Repository, git2::Error>,
    index: usize,
    identifier: &str,
) -> (r: Result<(), PinError>)
    ensures
        match opened {
            Err(cause) => r == Err::<(), PinError>(
                PinError { index, kind: ErrorKind::RepositoryOpen, cause: Some(cause) },
            ),
            Ok(_) => match r {
                Ok(()) => is_identifier_text(identifier@),
                Err(e) => {
                    &&& e.index == index
                    &&& e.cause is Some
                    &&& e.kind == ErrorKind::InvalidIdentifier || e.kind
                        == ErrorKind::ObjectNotFound
                    &&& e.kind == ErrorKind::InvalidIdentifier <==> !is_identifier_text(
                        identifier@,
                    )
                },
            },
        },
{
    let repo = at_step(opened, index, ErrorKind::RepositoryOpen)?;
    let oid = at_step(git2::Oid::from_str(identifier), index, ErrorKind::InvalidIdentifier)?;
    at_step(repo.set_head_detached(oid), index, ErrorKind::ObjectNotFound)
}

/// Applies one line of a pin file, the line at `index`, to the checkouts
/// beneath `pt_path`.
pub fn restore_line(pt_path: &str, index: usize, line: &str) -> (r: Result<(), PinError>)
    ensures
        line_outcome_fits(line@, index, r),
{
    match parse_pin_line(line) {
        None => Err(PinError::unreadable_line(index)),
        Some(record) => restore_pin(pt_path, index, &record),
    }
}

/// Restores the checkouts beneath `pt_path` to the commits that the pin
/// file with the text `pin_text` records.
///
/// The lines are applied in order and the first failure ends the work.
/// Nothing is undone: the checkouts named on the lines before the failing
/// one have been moved.
pub fn restore_pt_by_hash(pt_path: &str, pin_text: &str) -> (r: Result<(), PinError>)
    ensures
        restore_outcome_fits(lines_of(pin_text@), r),
{
    let lines = split_lines(pin_text);
    let mut i: usize = 0;
    while i < lines.len()
        invariant
            i <= lines.len(),
            texts_of(lines@) == lines_of(pin_text@),
            forall|j: int| 0 <= j < i ==> is_sound_line(#[trigger] lines_of(pin_text@)[j]),
        decreases lines.len() - i,
    {
        assert(texts_of(lines@)[i as int] == lines[i as int]@);
        match restore_line(pt_path, i, lines[i].as_str()) {
            Ok(()) => {},
            Err(e) => {
                return Err(e);
            },
        }
        i += 1;
    }
    Ok(())
}

/// A line that cannot be read stops the work: where the line at `at`
/// stands for no pin, restoring fails, at that line or before it, and where
/// it fails at that line it fails because the line cannot be read.
pub proof fn lemma_unreadable_line_stops(
    lines: Seq<Seq<char>>,
    at: int,
    outcome: Result<(), PinError>,
)
    requires
        0 <= at < lines.len(),
        parse_line(lines[at]) is None,
        restore_outcome_fits(lines, outcome),
    ensures
        outcome matches Err(e) && e.index <= at && (e.index == at ==> e.kind
            == ErrorKind::PinLineParse && e.cause is None),
{
    assert(!is_sound_line(lines[at]));
}

/// An identifier that does not have the form of one stops the work too:
/// where the line at `at` is not sound, restoring fails, at that line or
/// before it, and the line is not applied.
pub proof fn lemma_unsound_line_stops(
    lines: Seq<Seq<char>>,
    at: int,
    outcome: Result<(), PinError>,
)
    requires
        0 <= at < lines.len(),
        !is_sound_line(lines[at]),
        restore_outcome_fits(lines, outcome),
    ensures
        outcome matches Err(e) && e.index <= at && (e.index == at ==> e.kind
            != ErrorKind::ObjectNotFound),
{
}

/// What was recorded can be restored as far as the text goes: the pin file
/// written for recordable pins with identifiers of the right form has one
/// sound line for each pin, the line of a pin names that pin, and so
/// restoring it can fail only where a repository refuses.
pub proof fn lemma_recorded_file_restores(pins: Seq<Pin>, outcome: Result<(), PinError>)
    requires
        forall|i: int| 0 <= i < pins.len() ==> is_recordable(#[trigger] pins[i]),
        forall|i: int| 0 <= i < pins.len() ==> is_identifier_text(#[trigger] pins[i].identifier),
        restore_outcome_fits(lines_of(render(pins)), outcome),
    ensures
        lines_of(render(pins)).len() == pins.len(),
        forall|i: int|
            0 <= i < pins.len() ==> {
                &&& parse_line(#[trigger] lines_of(render(pins))[i]) == Some(pins[i])
                &&& is_sound_line(lines_of(render(pins))[i])
            },
        outcome matches Err(e) ==> e.kind == ErrorKind::RepositoryOpen || e.kind
            == ErrorKind::ObjectNotFound,
{
    lemma_round_trip(pins);
    let lines = lines_of(render(pins));
    assert forall|i: int| 0 <= i < pins.len() implies is_sound_line(#[trigger] lines[i]) by {
        assert(parse_line(lines[i]) == Some(pins[i]));
    }
}

/// A snapshot can be restored as far as its text goes.
///
/// Where `pins` is a complete set of pins for the checkouts among
/// `entries`, and those checkouts have plain names, the pin file written
/// for `pins` has one sound line for each checkout, which names the
/// checkout and its commit, and restoring it can fail only where a
/// repository refuses: because a checkout cannot be opened, or because it
/// does not hold the commit.
pub proof fn lemma_snapshot_restores(
    entries: Seq<Entry>,
    pins: Seq<Pin>,
    outcome: Result<(), PinError>,
)
    requires
        is_snapshot_of(pins, entries),
        forall|k: int|
            0 <= k < checkout_names(entries).len() ==> is_plain_name(
                #[trigger] checkout_names(entries)[k],
            ),
        restore_outcome_fits(lines_of(render(pins)), outcome),
    ensures
        lines_of(render(pins)).len() == checkout_names(entries).len(),
        forall|k: int|
            0 <= k < pins.len() ==> {
                &&& parse_line(#[trigger] lines_of(render(pins))[k]) == Some(pins[k])
                &&& pins[k].name == checkout_names(entries)[k]
                &&& is_sound_line(lines_of(render(pins))[k])
            },
        outcome matches Err(e) ==> e.kind == ErrorKind::RepositoryOpen || e.kind
            == ErrorKind::ObjectNotFound,
{
    lemma_snapshot_is_complete(entries, pins);
    assert forall|k: int| 0 <= k < pins.len() implies is_recordable(#[trigger] pins[k])
        && is_identifier_text(pins[k].identifier) by {
        assert(is_plain_name(checkout_names(entries)[k]));
        lemma_canonical_pin_is_recordable(pins[k]);
        lemma_canonical_is_identifier_text(pins[k].identifier);
    }
    lemma_recorded_file_restores(pins, outcome);
}

} // verus!
