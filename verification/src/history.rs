//! The undo/redo history of bore geometry edits: before each edit the current
//! geometry is recorded; undo steps back to the last recorded geometry, redo
//! steps forward again.

use vstd::prelude::*;

verus! {

/// Most entries kept after recording one.
pub const HISTORY_CAP: usize = 50;

/// A history of recorded entries with a position: the entries before the
/// position can be undone, those from the position on redone.
pub struct GeoHistory<E> {
    entries: Vec<E>,
    index: usize,
}

/// The entries after recording `entry`: those that could be redone are
/// dropped, `entry` is appended, and the oldest is dropped when more than
/// `HISTORY_CAP` would remain.
pub open spec fn recorded<E>(entries: Seq<E>, index: int, entry: E) -> Seq<E> {
    let kept = if index < entries.len() {
        entries.subrange(0, index)
    } else {
        entries
    };
    let grown = kept.push(entry);
    if grown.len() > HISTORY_CAP {
        grown.drop_first()
    } else {
        grown
    }
}

impl<E> GeoHistory<E> {
    /// The recorded entries, oldest first.
    pub closed spec fn entries_view(&self) -> Seq<E> {
        self.entries@
    }

    /// The position: how many entries can be undone.
    pub closed spec fn position(&self) -> nat {
        self.index as nat
    }

    /// An empty history.
    pub fn new() -> (r: Self)
        ensures
            r.entries_view() == Seq::<E>::empty(),
            r.position() == 0,
    {
        GeoHistory { entries: Vec::new(), index: 0 }
    }

    /// A history holding `entries` at position `index`, as a saved project
    /// stores them.
    pub fn from_parts(entries: Vec<E>, index: usize) -> (r: Self)
        ensures
            r.entries_view() == entries@,
            r.position() == index,
    {
        GeoHistory { entries, index }
    }

    /// Number of recorded entries.
    pub fn len(&self) -> (n: usize)
        ensures
            n == self.entries_view().len(),
    {
        self.entries.len()
    }

    /// The position: how many entries can be undone.
    pub fn index(&self) -> (i: usize)
        ensures
            i == self.position(),
    {
        self.index
    }

    /// The entry recorded at `pos`.
    pub fn entry(&self, pos: usize) -> (e: &E)
        requires
            pos < self.entries_view().len(),
        ensures
            *e == self.entries_view()[pos as int],
    {
        &self.entries[pos]
    }

    /// Some step can be undone.
    pub fn can_undo(&self) -> (b: bool)
        ensures
            b == (self.position() > 0),
    {
        self.index > 0
    }

    /// Some step can be redone.
    pub fn can_redo(&self) -> (b: bool)
        ensures
            b == (self.position() < self.entries_view().len()),
    {
        self.index < self.entries.len()
    }

    /// Records `entry` before an edit: the entries that could be redone are
    /// dropped, `entry` is appended, at most one oldest entry is dropped to
    /// keep `HISTORY_CAP`, and the position moves past the end.
    pub fn push(&mut self, entry: E)
        ensures
            final(self).entries_view() == recorded(
                old(self).entries_view(),
                old(self).position() as int,
                entry,
            ),
            final(self).position() == final(self).entries_view().len(),
    {
        if self.index < self.entries.len() {
            self.entries.truncate(self.index);
        }
        self.entries.push(entry);
        self.index = self.entries.len();
        if self.entries.len() > HISTORY_CAP {
            self.entries.remove(0);
            self.index = self.entries.len();
        }
    }

    /// Steps back: when the position is above 0 it moves down by one, and the
    /// entry at the new position (if there is one) is the geometry to restore.
    pub fn undo(&mut self) -> (r: Option<usize>)
        ensures
            final(self).entries_view() == old(self).entries_view(),
            final(self).position() == undo_position(old(self).position()),
            is_target(r, undo_target(old(self).entries_view().len(), old(self).position())),
    {
        if self.index > 0 {
            self.index -= 1;
            if self.index < self.entries.len() {
                return Some(self.index);
            }
        }
        None
    }

    /// Steps forward: when an entry lies at the position, that entry is the
    /// geometry to restore and the position moves up by one.
    pub fn redo(&mut self) -> (r: Option<usize>)
        ensures
            final(self).entries_view() == old(self).entries_view(),
            final(self).position() == redo_position(old(self).entries_view().len(), old(self).position()),
            is_target(r, redo_target(old(self).entries_view().len(), old(self).position())),
    {
        if self.index < self.entries.len() {
            let pos = self.index;
            self.index += 1;
            Some(pos)
        } else {
            None
        }
    }
}

/// The project snapshots of the standalone editor: unlike `GeoHistory` it
/// keeps every snapshot, and redo moves to the next snapshot and restores it.
pub struct SnapshotHistory<E> {
    entries: Vec<E>,
    index: usize,
}

/// The snapshots after recording `entry`: those from the position on are
/// dropped and `entry` is appended.
pub open spec fn snapshot_recorded<E>(entries: Seq<E>, index: int, entry: E) -> Seq<E> {
    if index < entries.len() {
        entries.subrange(0, index).push(entry)
    } else {
        entries.push(entry)
    }
}

/// The position after a redo of the standalone editor, in a history of `len`
/// snapshots.
pub open spec fn snapshot_redo_position(len: nat, position: nat) -> nat {
    if position + 1 < len {
        position + 1
    } else {
        position
    }
}

/// Which snapshot a redo of the standalone editor restores.
pub open spec fn snapshot_redo_target(len: nat, position: nat) -> Option<nat> {
    if position + 1 < len {
        Some(position + 1)
    } else {
        None
    }
}

impl<E> SnapshotHistory<E> {
    /// The recorded snapshots, oldest first.
    pub closed spec fn entries_view(&self) -> Seq<E> {
        self.entries@
    }

    /// The position in the history.
    pub closed spec fn position(&self) -> nat {
        self.index as nat
    }

    /// An empty history.
    pub fn new() -> (r: Self)
        ensures
            r.entries_view() == Seq::<E>::empty(),
            r.position() == 0,
    {
        SnapshotHistory { entries: Vec::new(), index: 0 }
    }

    /// Number of recorded snapshots.
    pub fn len(&self) -> (n: usize)
        ensures
            n == self.entries_view().len(),
    {
        self.entries.len()
    }

    /// The position in the history.
    pub fn index(&self) -> (i: usize)
        ensures
            i == self.position(),
    {
        self.index
    }

    /// The snapshot recorded at `pos`.
    pub fn entry(&self, pos: usize) -> (e: &E)
        requires
            pos < self.entries_view().len(),
        ensures
            *e == self.entries_view()[pos as int],
    {
        &self.entries[pos]
    }

    /// Records `entry`: the snapshots from the position on are dropped,
    /// `entry` is appended, and the position moves past the end.
    pub fn push(&mut self, entry: E)
        ensures
            final(self).entries_view() == snapshot_recorded(
                old(self).entries_view(),
                old(self).position() as int,
                entry,
            ),
            final(self).position() == final(self).entries_view().len(),
    {
        if self.entries.len() > self.index {
            self.entries.truncate(self.index);
        }
        self.entries.push(entry);
        self.index = self.entries.len();
    }

    /// Steps back: when the position is above 0 it moves down by one, and the
    /// snapshot at the new position (if there is one) is restored.
    pub fn undo(&mut self) -> (r: Option<usize>)
        ensures
            final(self).entries_view() == old(self).entries_view(),
            final(self).position() == undo_position(old(self).position()),
            is_target(r, undo_target(old(self).entries_view().len(), old(self).position())),
    {
        if self.index > 0 {
            self.index -= 1;
            if self.index < self.entries.len() {
                return Some(self.index);
            }
        }
        None
    }

    /// Steps forward: when a snapshot follows the one at the position, the
    /// position moves to it and it is restored.
    pub fn redo(&mut self) -> (r: Option<usize>)
        ensures
            final(self).entries_view() == old(self).entries_view(),
            final(self).position() == snapshot_redo_position(
                old(self).entries_view().len(),
                old(self).position(),
            ),
            is_target(
                r,
                snapshot_redo_target(old(self).entries_view().len(), old(self).position()),
            ),
    {
        if self.index < self.entries.len() && self.entries.len() - self.index > 1 {
            self.index += 1;
            Some(self.index)
        } else {
            None
        }
    }
}

/// The position after an undo.
pub open spec fn undo_position(position: nat) -> nat {
    if position > 0 {
        (position - 1) as nat
    } else {
        0
    }
}

/// Which entry an undo restores, in a history of `len` entries.
pub open spec fn undo_target(len: nat, position: nat) -> Option<nat> {
    if 0 < position && position - 1 < len {
        Some((position - 1) as nat)
    } else {
        None
    }
}

/// The position after a redo, in a history of `len` entries.
pub open spec fn redo_position(len: nat, position: nat) -> nat {
    if position < len {
        position + 1
    } else {
        position
    }
}

/// Which entry a redo restores, in a history of `len` entries.
pub open spec fn redo_target(len: nat, position: nat) -> Option<nat> {
    if position < len {
        Some(position)
    } else {
        None
    }
}

/// `r` names the entry `target` names.
pub open spec fn is_target(r: Option<usize>, target: Option<nat>) -> bool {
    match target {
        Some(t) => r == Some(t as usize),
        None => r is None,
    }
}

/// Undo right after recording an entry restores that entry.
pub proof fn lemma_undo_after_push<E>(entries: Seq<E>, index: int, entry: E)
    requires
        0 <= index,
    ensures
        ({
            let after = recorded(entries, index, entry);
            &&& after.len() >= 1
            &&& undo_target(after.len(), after.len()) == Some((after.len() - 1) as nat)
            &&& after[after.len() - 1] == entry
        }),
{
}

/// Redo right after an undo that restored an entry restores the same entry
/// and returns to the position before the undo.
pub proof fn lemma_redo_after_undo(len: nat, position: nat)
    requires
        undo_target(len, position) is Some,
    ensures
        redo_target(len, undo_position(position)) == undo_target(len, position),
        redo_position(len, undo_position(position)) == position,
{
}

/// In the standalone editor, undo right after recording a snapshot restores
/// that snapshot.
pub proof fn lemma_snapshot_undo_after_push<E>(entries: Seq<E>, index: int, entry: E)
    requires
        0 <= index,
    ensures
        ({
            let after = snapshot_recorded(entries, index, entry);
            &&& after.len() >= 1
            &&& undo_target(after.len(), after.len()) == Some((after.len() - 1) as nat)
            &&& after[after.len() - 1] == entry
        }),
{
}

/// In the standalone editor, a redo right after an undo from a position that
/// holds a snapshot returns to that position and restores its snapshot.
pub proof fn lemma_snapshot_redo_after_undo(len: nat, position: nat)
    requires
        0 < position < len,
    ensures
        snapshot_redo_position(len, undo_position(position)) == position,
        snapshot_redo_target(len, undo_position(position)) == Some(position),
{
}

/// Recording at a position inside the history keeps exactly the entries
/// before the position and appends the new one (before the cap applies);
/// recording at or past the end keeps every entry. The entry is always last,
/// and when the cap drops the oldest entry the count stays at the position.
pub proof fn lemma_push_drops_the_redoable<E>(entries: Seq<E>, index: int, entry: E)
    requires
        0 <= index,
    ensures
        index < entries.len() && index + 1 <= HISTORY_CAP ==> recorded(entries, index, entry)
            == entries.subrange(0, index).push(entry),
        index < entries.len() ==> recorded(entries, index, entry).len() == if index + 1
            <= HISTORY_CAP {
            index + 1
        } else {
            index
        },
        index >= entries.len() && entries.len() + 1 <= HISTORY_CAP ==> recorded(
            entries,
            index,
            entry,
        ) == entries.push(entry),
        recorded(entries, index, entry).last() == entry,
{
}

/// Recording a snapshot at a position inside the history keeps exactly the
/// snapshots before the position and appends the new one; recording at or
/// past the end keeps every snapshot.
pub proof fn lemma_snapshot_push_drops_from_position<E>(entries: Seq<E>, index: int, entry: E)
    requires
        0 <= index,
    ensures
        index < entries.len() ==> snapshot_recorded(entries, index, entry) == entries.subrange(
            0,
            index,
        ).push(entry),
        index < entries.len() ==> snapshot_recorded(entries, index, entry).len() == index + 1,
        index >= entries.len() ==> snapshot_recorded(entries, index, entry) == entries.push(entry),
{
}

/// Recording never lets a history within `HISTORY_CAP` entries grow past it.
pub proof fn lemma_push_keeps_cap<E>(entries: Seq<E>, index: int, entry: E)
    requires
        0 <= index,
        entries.len() <= HISTORY_CAP,
    ensures
        recorded(entries, index, entry).len() <= HISTORY_CAP,
{
}

} // verus!
