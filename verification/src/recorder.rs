//! Taking pins: each checkout beneath a directory is resolved to the
//! commit it is at.
//!
//! The entries of the directory are handed in as they were listed. Only
//! the directories that lie directly in it are checkouts; the directory
//! itself, what lies deeper, and what is no directory are passed over. The
//! first checkout that fails ends the work, and then there are no pins at
//! all: a pin file is written from a complete set or not written.

use vstd::prelude::*;
use crate::error::{at_step, ErrorKind, PinError};
use crate::git::{child_path, names_a_commit, open_repository, resolve_current_commit};
use crate::identifier::is_canonical_identifier;
use crate::pin_file::{
    is_plain_name, is_recordable, lemma_canonical_pin_is_recordable, lemma_round_trip, lines_of,
    parse_line, pins_of, render, Pin, PinRecord,
};

verus! {

/// How deep beneath the directory of checkouts a checkout lies: directly
/// in it.
pub const CHECKOUT_DEPTH: usize = 1;

/// An entry found while the directory of checkouts was listed.
#[derive(Clone, Debug, PartialEq, Eq)]
pub struct DirectoryEntry {
    /// The entry's own name, the last part of its path.
    pub name: String,
    /// How deep the entry lies: 0 for the directory of checkouts itself, 1
    /// for what lies directly in it.
    pub depth: usize,
    /// Whether the entry is a directory.
    pub is_dir: bool,
}

/// The mathematical value of a [`DirectoryEntry`].
pub struct Entry {
    /// The characters of the name.
    pub name: Seq<char>,
    /// The depth.
    pub depth: nat,
    /// Whether the entry is a directory.
    pub is_dir: bool,
}

impl View for DirectoryEntry {
    type V = Entry;

    open spec fn view(&self) -> Entry {
        Entry { name: self.name@, depth: self.depth as nat, is_dir: self.is_dir }
    }
}

/// Whether `entry` is a checkout: a directory directly in the directory of
/// checkouts.
pub open spec fn is_checkout(entry: Entry) -> bool {
    entry.is_dir && entry.depth == CHECKOUT_DEPTH
}

impl DirectoryEntry {
    /// Whether this entry is a checkout.
    pub fn is_checkout(&self) -> (r: bool)
        ensures
            r == is_checkout(self@),
    {
        self.is_dir && self.depth == CHECKOUT_DEPTH
    }
}

/// The values of a sequence of directory entries.
pub open spec fn entries_of(entries: Seq<DirectoryEntry>) -> Seq<Entry> {
    entries.map_values(|e: DirectoryEntry| e@)
}

/// The name of `entry` where it is a checkout.
pub open spec fn checkout_name(entry: Entry) -> Option<Seq<char>> {
    if is_checkout(entry) {
        Some(entry.name)
    } else {
        None
    }
}

/// The names of the checkouts among `entries`, in the order of the
/// entries.
pub open spec fn checkout_names(entries: Seq<Entry>) -> Seq<Seq<char>> {
    entries.filter_map(|entry: Entry| checkout_name(entry))
}

/// The names of `pins`, in order.
pub open spec fn names_of(pins: Seq<Pin>) -> Seq<Seq<char>> {
    pins.map_values(|pin: Pin| pin.name)
}

/// Whether `pins` is a complete set of pins for the checkouts among
/// `entries`: one pin for each checkout, in the order of the entries, under
/// the checkout's name, with a canonical identifier.
pub open spec fn is_snapshot_of(pins: Seq<Pin>, entries: Seq<Entry>) -> bool {
    &&& names_of(pins) == checkout_names(entries)
    &&& forall|i: int| 0 <= i < pins.len() ==> is_canonical_identifier(#[trigger] pins[i].identifier)
}

/// Whether each of `pins` holds the identifier of a commit.
pub open spec fn pins_name_commits(pins: Seq<Pin>) -> bool {
    forall|i: int| 0 <= i < pins.len() ==> names_a_commit(#[trigger] pins[i].identifier)
}

/// Whether `outcome` can be what taking pins of `entries` ends in.
///
/// Success is a complete set of pins, each with the identifier of a
/// commit. A failure names an entry that is a checkout, and comes from the
/// repository: it could not be opened, or the commit it is at could not be
/// resolved.
pub open spec fn record_outcome_fits(
    entries: Seq<Entry>,
    outcome: Result<Vec<PinRecord>, PinError>,
) -> bool {
    match outcome {
        Ok(records) => {
            &&& is_snapshot_of(pins_of(records@), entries)
            &&& pins_name_commits(pins_of(records@))
        },
        Err(e) => {
            &&& e.index < entries.len()
            &&& is_checkout(entries[e.index as int])
            &&& e.kind == ErrorKind::RepositoryOpen || e.kind == ErrorKind::HeadResolution
            &&& e.cause is Some
        },
    }
}

/// Takes the pin of the checkout `name` beneath `pt_path`. `index` is the
/// position of the checkout's entry, for the error.
pub fn pin_checkout(pt_path: &str, index: usize, name: &str) -> (r: Result<PinRecord, PinError>)
    ensures
        r matches Ok(record) ==> {
            &&& record.name@ == name@
            &&& names_a_commit(record.identifier@)
            &&& is_canonical_identifier(record.identifier@)
        },
        r matches Err(e) ==> {
            &&& e.index == index
            &&& e.kind == ErrorKind::RepositoryOpen || e.kind == ErrorKind::HeadResolution
            &&& e.cause is Some
        },
{
    let path = child_path(pt_path, name);
    pin_opened(open_repository(&path), index, name)
}

/// What opening the checkout `name` comes to. Where the repository could
/// not be opened, that is the failure, and nothing further is tried; where
/// it was opened, the commit it is at is resolved.
pub fn pin_opened(opened: Result<git2::Repository, git2::Error>, index: usize, name: &str) -> (r:
    Result<PinRecord, PinError>)
    ensures
        match opened {
            Err(cause) => r == Err::<PinRecord, PinError>(
                PinError { index, kind: ErrorKind::RepositoryOpen, cause: Some(cause) },
            ),
            Ok(_) => match r {
                Ok(record) => {
                    &&& record.name@ == name@
                    &&& names_a_commit(record.identifier@)
                    &&& is_canonical_identifier(record.identifier@)
                },
                Err(e) => e.index == index && e.kind == ErrorKind::HeadResolution && e.cause
                    is Some,
            },
        },
{
    let repo = at_step(opened, index, ErrorKind::RepositoryOpen)?;
    pin_resolved(resolve_current_commit(&repo), index, name)
}

/// What resolving the commit of the checkout `name` comes to: the pin of
/// that name with the identifier that was resolved, or the failure to
/// resolve it.
pub fn pin_resolved(resolved: Result<String, git2::Error>, index: usize, name: &str) -> (r: Result<
    PinRecord,
    PinError,
>)
    ensures
        match resolved {
            Ok(identifier) => r matches Ok(record) && record.name@ == name@ && record.identifier@
                == identifier@,
            Err(cause) => r == Err::<PinRecord, PinError>(
                PinError { index, kind: ErrorKind::HeadResolution, cause: Some(cause) },
            ),
        },
{
    let identifier = at_step(resolved, index, ErrorKind::HeadResolution)?;
    Ok(PinRecord { name: name.to_owned(), identifier })
}

/// Takes the pins of the checkouts beneath `pt_path`, whose entries are
/// `entries`.
///
/// The checkouts among the entries are visited in the order given. The
/// result is to be written out with
/// [`render_pin_file`](crate::pin_file::render_pin_file); on a failure there
/// is nothing to write.
pub fn record_pt_repo_hash(pt_path: &str, entries: &Vec<DirectoryEntry>) -> (r: Result<
    Vec<PinRecord>,
    PinError,
>)
    ensures
        record_outcome_fits(entries_of(entries@), r),
{
    let mut records: Vec<PinRecord> = Vec::new();
    let mut i: usize = 0;
    assert(entries_of(entries@).take(0) =~= Seq::<Entry>::empty());
    assert(names_of(pins_of(records@)) =~= Seq::<Seq<char>>::empty());
    while i < entries.len()
        invariant
            i <= entries.len(),
            is_snapshot_of(pins_of(records@), entries_of(entries@).take(i as int)),
            pins_name_commits(pins_of(records@)),
        decreases entries.len() - i,
    {
        let ghost before = records@;
        let ghost all = entries_of(entries@);
        proof {
            all.lemma_filter_map_take_succ(|entry: Entry| checkout_name(entry), i as int);
            assert(all[i as int] == entries[i as int]@);
        }
        let entry = &entries[i];
        if entry.is_checkout() {
            match pin_checkout(pt_path, i, entry.name.as_str()) {
                Ok(record) => {
                    records.push(record);
                    proof {
                        assert(checkout_names(all.take(i + 1)) =~= checkout_names(
                            all.take(i as int),
                        ).push(entry.name@));
                        assert(names_of(pins_of(records@)) =~= names_of(pins_of(before)).push(
                            entry.name@,
                        ));
                        assert forall|j: int| 0 <= j < records.len() implies {
                            &&& is_canonical_identifier(#[trigger] pins_of(records@)[j].identifier)
                            &&& names_a_commit(pins_of(records@)[j].identifier)
                        } by {
                            if j < before.len() {
                                assert(pins_of(records@)[j] == pins_of(before)[j]);
                                assert(names_a_commit(pins_of(before)[j].identifier));
                            }
                        }
                    }
                },
                Err(e) => {
                    return Err(e);
                },
            }
        } else {
            assert(checkout_names(all.take(i + 1)) =~= checkout_names(all.take(i as int)));
        }
        i += 1;
    }
    assert(entries_of(entries@).take(entries.len() as int) =~= entries_of(entries@));
    Ok(records)
}

/// Whether a checkout among `entries` has the name `name`.
pub open spec fn names_a_checkout(entries: Seq<Entry>, name: Seq<char>) -> bool {
    exists|i: int|
        0 <= i < entries.len() && is_checkout(#[trigger] entries[i]) && entries[i].name == name
}

/// Whether no two checkouts among `entries` have the same name, as it is
/// with the entries of one directory.
pub open spec fn checkouts_differ(entries: Seq<Entry>) -> bool {
    forall|i: int, j: int|
        0 <= i < j < entries.len() && is_checkout(#[trigger] entries[i]) && is_checkout(
            #[trigger] entries[j],
        ) ==> entries[i].name != entries[j].name
}

/// Where no two checkouts have the same name, no name comes twice among
/// the names of the checkouts; and each of those names is the name of a
/// checkout among the entries.
pub proof fn lemma_checkout_names_distinct(entries: Seq<Entry>)
    requires
        checkouts_differ(entries),
    ensures
        checkout_names(entries).no_duplicates(),
        forall|k: int|
            0 <= k < checkout_names(entries).len() ==> names_a_checkout(
                entries,
                #[trigger] checkout_names(entries)[k],
            ),
    decreases entries.len(),
{
    if entries.len() > 0 {
        let front = entries.drop_last();
        let last = entries.len() - 1;
        assert(checkouts_differ(front)) by {
            assert forall|i: int, j: int|
                0 <= i < j < front.len() && is_checkout(#[trigger] front[i]) && is_checkout(
                    #[trigger] front[j],
                ) implies front[i].name != front[j].name by {
                assert(front[i] == entries[i] && front[j] == entries[j]);
            }
        }
        lemma_checkout_names_distinct(front);
        let names = checkout_names(entries);
        let front_names = checkout_names(front);
        assert forall|k: int| 0 <= k < names.len() implies names_a_checkout(
            entries,
            #[trigger] names[k],
        ) by {
            if k < front_names.len() {
                assert(names_a_checkout(front, front_names[k]));
                let i = choose|i: int|
                    0 <= i < front.len() && is_checkout(#[trigger] front[i]) && front[i].name
                        == front_names[k];
                assert(entries[i] == front[i]);
            } else {
                assert(is_checkout(entries[last]) && entries[last].name == names[k]);
            }
        }
        if is_checkout(entries.last()) {
            assert forall|a: int, b: int| 0 <= a < b < names.len() implies names[a]
                != names[b] by {
                if b == names.len() - 1 {
                    assert(names_a_checkout(front, front_names[a]));
                    let i = choose|i: int|
                        0 <= i < front.len() && is_checkout(#[trigger] front[i]) && front[i].name
                            == front_names[a];
                    assert(entries[i] == front[i]);
                    assert(entries[i].name != entries[last].name);
                } else {
                    assert(front_names[a] != front_names[b]);
                }
            }
        }
    }
}

/// Nothing is left out and nothing comes twice: a complete set of pins of
/// checkouts with plain names makes a pin file of exactly one line for each
/// checkout, in the order of the entries; the line of a checkout reads back
/// as the checkout's name and its identifier; and where no two checkouts
/// have the same name, no two pins have.
pub proof fn lemma_snapshot_is_complete(entries: Seq<Entry>, pins: Seq<Pin>)
    requires
        is_snapshot_of(pins, entries),
        forall|k: int|
            0 <= k < checkout_names(entries).len() ==> is_plain_name(
                #[trigger] checkout_names(entries)[k],
            ),
    ensures
        pins.len() == checkout_names(entries).len(),
        lines_of(render(pins)).len() == checkout_names(entries).len(),
        forall|k: int|
            0 <= k < pins.len() ==> {
                &&& parse_line(#[trigger] lines_of(render(pins))[k]) == Some(pins[k])
                &&& pins[k].name == checkout_names(entries)[k]
            },
        checkouts_differ(entries) ==> names_of(pins).no_duplicates(),
{
    let names = checkout_names(entries);
    assert(names_of(pins).len() == pins.len());
    assert forall|k: int| 0 <= k < pins.len() implies is_recordable(#[trigger] pins[k]) by {
        assert(names_of(pins)[k] == pins[k].name);
        assert(is_plain_name(names[k]));
        lemma_canonical_pin_is_recordable(pins[k]);
    }
    lemma_round_trip(pins);
    assert forall|k: int| 0 <= k < pins.len() implies pins[k].name == names[k] by {
        assert(names_of(pins)[k] == pins[k].name);
    }
    if checkouts_differ(entries) {
        lemma_checkout_names_distinct(entries);
    }
}

} // verus!
