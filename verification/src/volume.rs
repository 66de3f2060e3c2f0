//! A model of the storage volume's top-level namespace, on which the
//! atomic-promotion protocol is stated and proved.
//!
//! Each subvolume has an identity and occupies one slot: the live-root name,
//! the transient top-level rollback name, a numbered entry of some parent's
//! snapshot-storage directory, or the rollback entry nested in a parent's
//! snapshot-storage directory. Renaming a subvolume moves everything nested
//! inside it, so nested slots are parent-relative and a promotion only ever
//! rewrites the slots of the two subvolumes it exchanges.
//!
//! A promotion swaps the live root with one of its numbered snapshots: the
//! snapshot becomes the live root and the old root becomes the rollback entry
//! nested under it. A rollback applies the same exchange to the live root and
//! its nested rollback entry, restoring the previous root. Both are pure
//! permutations of the occupied slots; every other subvolume stays where it
//! was.

use vstd::prelude::*;

verus! {

/// Where a subvolume sits in the volume's top-level namespace.
#[derive(Clone, Copy, PartialEq, Eq, Structural, Debug)]
pub enum SubvolSlot {
    /// At `<top>/<root subvolume name>`: the live, bootable root.
    LiveRoot,
    /// At `<top>/rollback`: the transient slot a swap displaces the root
    /// into between its renames.
    TopRollback,
    /// A numbered entry of the parent's snapshot-storage directory.
    Numbered { parent: u64, num: u32 },
    /// The rollback entry of the parent's snapshot-storage directory.
    NestedRollback { parent: u64 },
}

/// A subvolume of the volume: its identity and the slot it occupies.
#[derive(Clone, Copy, PartialEq, Eq, Structural, Debug)]
pub struct SubvolEntry {
    pub id: u64,
    pub slot: SubvolSlot,
}

/// Why a volume operation was refused. The volume is never changed when one
/// of these is returned.
#[derive(Clone, Copy, PartialEq, Eq, Structural, Debug)]
pub enum VolumeError {
    /// No subvolume occupies the live-root slot.
    NoLiveRoot,
    /// The live root has no numbered snapshot with the requested number.
    NoSuchSnapshot,
    /// A subvolume already occupies the top-level rollback slot.
    TopRollbackOccupied,
    /// The subvolume being promoted to root already has a nested rollback
    /// entry, so the old root cannot be nested under it.
    NestedRollbackOccupied,
    /// The requested numbered slot already holds a subvolume.
    SnapshotSlotOccupied,
    /// The identity chosen for a new snapshot is already in use.
    IdInUse,
    /// The live root has no nested rollback entry to restore.
    NoRollbackTarget,
}

/// The volume: the set of subvolumes and the slots they occupy.
pub struct VolumeModel {
    pub subvols: Vec<SubvolEntry>,
}

/// The map from subvolume identity to occupied slot that a list of entries
/// describes; a repeated identity keeps its last listed slot.
pub open spec fn entries_map(s: Seq<SubvolEntry>) -> Map<u64, SubvolSlot>
    decreases s.len(),
{
    if s.len() == 0 {
        Map::empty()
    } else {
        entries_map(s.drop_last()).insert(s.last().id, s.last().slot)
    }
}

/// No two subvolumes share a slot.
pub open spec fn injective_slots(m: Map<u64, SubvolSlot>) -> bool {
    forall|a: u64, b: u64|
        m.contains_key(a) && m.contains_key(b) && a != b ==> m[a] != m[b]
}

/// The identity of the subvolume occupying `slot`, if any.
pub open spec fn occupant(m: Map<u64, SubvolSlot>, slot: SubvolSlot) -> Option<u64> {
    if exists|k: u64| m.contains_key(k) && m[k] == slot {
        Some(choose|k: u64| m.contains_key(k) && m[k] == slot)
    } else {
        None
    }
}

/// The exchange both promotion and rollback perform: `new_root` takes the
/// live-root slot and `old_root` becomes the rollback entry nested under it.
pub open spec fn swapped_to_root(
    m: Map<u64, SubvolSlot>,
    old_root: u64,
    new_root: u64,
) -> Map<u64, SubvolSlot> {
    m.insert(old_root, SubvolSlot::NestedRollback { parent: new_root }).insert(
        new_root,
        SubvolSlot::LiveRoot,
    )
}

/// The exchange decomposes into the three renames the swap sequence
/// performs, in order: the old root moves to the transient top-level
/// rollback slot, the new root moves to the live-root slot, and the old root
/// moves on to the rollback entry nested under the new root.
pub proof fn lemma_exchange_decomposes_into_renames(m: Map<u64, SubvolSlot>, r: u64, s: u64)
    requires
        r != s,
    ensures
        swapped_to_root(m, r, s) =~= m.insert(r, SubvolSlot::TopRollback).insert(
            s,
            SubvolSlot::LiveRoot,
        ).insert(r, SubvolSlot::NestedRollback { parent: s }),
{
}

/// A successful promotion is a pure permutation of three paths. With the
/// volume well formed, the live root at `r`, the snapshot to promote at the
/// live root's numbered slot `num` with identity `s`, the top-level rollback
/// slot empty and the snapshot's nested rollback slot empty — the conditions
/// under which `VolumeModel::promote` succeeds — the promoted volume holds
/// the same subvolumes, the subvolume that held the snapshot slot now holds
/// the live-root slot, the old root now holds the rollback entry nested under
/// the new root, the vacated snapshot slot and the top-level rollback slot
/// are empty, every other subvolume keeps its slot, and no slot is occupied
/// twice.
pub proof fn lemma_promotion_is_permutation(m: Map<u64, SubvolSlot>, r: u64, s: u64, num: u32)
    requires
        injective_slots(m),
        m.contains_key(r),
        m[r] == SubvolSlot::LiveRoot,
        m.contains_key(s),
        m[s] == (SubvolSlot::Numbered { parent: r, num }),
        occupant(m, SubvolSlot::TopRollback) is None,
        occupant(m, SubvolSlot::NestedRollback { parent: s }) is None,
    ensures
        ({
            let m1 = swapped_to_root(m, r, s);
            &&& m1.dom() =~= m.dom()
            &&& m1[s] == SubvolSlot::LiveRoot
            &&& m1[r] == (SubvolSlot::NestedRollback { parent: s })
            &&& occupant(m1, SubvolSlot::Numbered { parent: r, num }) is None
            &&& occupant(m1, SubvolSlot::TopRollback) is None
            &&& forall|k: u64| m.contains_key(k) && k != r && k != s ==> m1[k] == m[k]
            &&& injective_slots(m1)
        }),
{
    let m1 = swapped_to_root(m, r, s);
    assert forall|k: u64|
        m1.contains_key(k) && m1[k] == (SubvolSlot::Numbered { parent: r, num }) implies false by {
        assert(m[k] == m1[k]);
    }
    assert forall|k: u64| m1.contains_key(k) && m1[k] == SubvolSlot::TopRollback implies false by {
        assert(m.contains_key(k) && m[k] == SubvolSlot::TopRollback);
    }
    assert forall|k: u64|
        m1.contains_key(k) && m1[k] == (SubvolSlot::NestedRollback { parent: s }) implies k
        == r by {
        if k != r {
            assert(m.contains_key(k) && m[k] == (SubvolSlot::NestedRollback { parent: s }));
        }
    }
}

/// A rollback right after a successful promotion restores the previous root.
/// Under the same conditions as `lemma_promotion_is_permutation`, plus the
/// restored root carrying no nested rollback entry of its own, the promoted
/// volume satisfies everything `VolumeModel::rollback` needs to succeed, and
/// the rollback's exchange brings the volume back to its pre-promotion state
/// except that the promoted snapshot now sits at the rollback entry nested
/// under the restored root instead of at its old numbered slot: the root and
/// rollback subvolumes swap back.
pub proof fn lemma_rollback_restores_previous_root(
    m: Map<u64, SubvolSlot>,
    r: u64,
    s: u64,
    num: u32,
)
    requires
        injective_slots(m),
        m.contains_key(r),
        m[r] == SubvolSlot::LiveRoot,
        m.contains_key(s),
        m[s] == (SubvolSlot::Numbered { parent: r, num }),
        occupant(m, SubvolSlot::TopRollback) is None,
        occupant(m, SubvolSlot::NestedRollback { parent: s }) is None,
        occupant(m, SubvolSlot::NestedRollback { parent: r }) is None,
    ensures
        ({
            let m1 = swapped_to_root(m, r, s);
            &&& occupant(m1, SubvolSlot::LiveRoot) == Some(s)
            &&& occupant(m1, SubvolSlot::NestedRollback { parent: s }) == Some(r)
            &&& occupant(m1, SubvolSlot::TopRollback) is None
            &&& occupant(m1, SubvolSlot::NestedRollback { parent: r }) is None
            &&& swapped_to_root(m1, s, r) =~= m.insert(
                s,
                SubvolSlot::NestedRollback { parent: r },
            )
            &&& swapped_to_root(m1, s, r)[r] == SubvolSlot::LiveRoot
        }),
{
    let m1 = swapped_to_root(m, r, s);
    lemma_promotion_is_permutation(m, r, s, num);
    assert(m1.contains_key(s) && m1[s] == SubvolSlot::LiveRoot);
    assert forall|k: u64| m1.contains_key(k) && m1[k] == SubvolSlot::LiveRoot implies k == s by {
        if k != s && k != r {
            assert(m.contains_key(k) && m[k] == SubvolSlot::LiveRoot);
        }
    }
    let kl = choose|k: u64| m1.contains_key(k) && m1[k] == SubvolSlot::LiveRoot;
    assert(kl == s);
    assert(m1.contains_key(r) && m1[r] == (SubvolSlot::NestedRollback { parent: s }));
    assert forall|k: u64|
        m1.contains_key(k) && m1[k] == (SubvolSlot::NestedRollback { parent: s }) implies k
        == r by {
        if k != r {
            assert(m.contains_key(k) && m[k] == (SubvolSlot::NestedRollback { parent: s }));
        }
    }
    let kn = choose|k: u64|
        m1.contains_key(k) && m1[k] == (SubvolSlot::NestedRollback { parent: s });
    assert(kn == r);
    assert forall|k: u64|
        m1.contains_key(k) && m1[k] == (SubvolSlot::NestedRollback { parent: r }) implies false by {
        assert(m.contains_key(k) && m[k] == (SubvolSlot::NestedRollback { parent: r }));
    }
}

impl View for VolumeModel {
    type V = Map<u64, SubvolSlot>;

    open spec fn view(&self) -> Map<u64, SubvolSlot> {
        entries_map(self.subvols@)
    }
}

impl VolumeModel {
    /// Identities are unique and no slot is occupied twice.
    pub open spec fn wf(self) -> bool {
        forall|i: int, j: int|
            0 <= i < j < self.subvols@.len() ==> self.subvols@[i].id != self.subvols@[j].id
                && self.subvols@[i].slot != self.subvols@[j].slot
    }
}

proof fn lemma_entries_map_props(s: Seq<SubvolEntry>)
    requires
        forall|i: int, j: int| 0 <= i < j < s.len() ==> s[i].id != s[j].id,
    ensures
        forall|i: int|
            0 <= i < s.len() ==> entries_map(s).contains_key(#[trigger] s[i].id) && entries_map(
                s,
            )[s[i].id] == s[i].slot,
        forall|k: u64|
            entries_map(s).contains_key(k) ==> exists|i: int|
                0 <= i < s.len() && #[trigger] s[i].id == k,
    decreases s.len(),
{
    if s.len() > 0 {
        lemma_entries_map_props(s.drop_last());
        assert forall|i: int|
            0 <= i < s.len() implies entries_map(s).contains_key(#[trigger] s[i].id) && entries_map(
            s,
        )[s[i].id] == s[i].slot by {
            if i < s.len() - 1 {
                assert(s.drop_last()[i] == s[i]);
                assert(s[i].id != s.last().id);
            }
        }
        assert forall|k: u64| entries_map(s).contains_key(k) implies exists|i: int|
            0 <= i < s.len() && #[trigger] s[i].id == k by {
            if k == s.last().id {
                assert(s[s.len() - 1].id == k);
            } else {
                assert(entries_map(s.drop_last()).contains_key(k));
                let i = choose|i: int| 0 <= i < s.len() - 1 && #[trigger] s.drop_last()[i].id == k;
                assert(s[i].id == k);
            }
        }
    }
}

/// A well-formed volume's view occupies each slot at most once, which is
/// what the permutation laws ask of the map they transform.
pub proof fn lemma_wf_view_is_injective(v: VolumeModel)
    requires
        v.wf(),
    ensures
        injective_slots(v@),
{
    let s = v.subvols@;
    lemma_entries_map_props(s);
    assert forall|a: u64, b: u64|
        v@.contains_key(a) && v@.contains_key(b) && a != b implies v@[a] != v@[b] by {
        let i = choose|i: int| 0 <= i < s.len() && #[trigger] s[i].id == a;
        let j = choose|j: int| 0 <= j < s.len() && #[trigger] s[j].id == b;
        assert(v@[a] == s[i].slot);
        assert(v@[b] == s[j].slot);
    }
}

proof fn lemma_occupant_some(s: Seq<SubvolEntry>, i: int)
    requires
        forall|p: int, q: int|
            0 <= p < q < s.len() ==> s[p].id != s[q].id && s[p].slot != s[q].slot,
        0 <= i < s.len(),
    ensures
        occupant(entries_map(s), s[i].slot) == Some(s[i].id),
{
    lemma_entries_map_props(s);
    let m = entries_map(s);
    assert(m.contains_key(s[i].id) && m[s[i].id] == s[i].slot);
    let k = choose|k: u64| m.contains_key(k) && m[k] == s[i].slot;
    let j = choose|j: int| 0 <= j < s.len() && #[trigger] s[j].id == k;
    assert(s[j].slot == s[i].slot);
    assert(j == i);
}

proof fn lemma_occupant_none(s: Seq<SubvolEntry>, slot: SubvolSlot)
    requires
        forall|p: int, q: int| 0 <= p < q < s.len() ==> s[p].id != s[q].id,
        forall|i: int| 0 <= i < s.len() ==> s[i].slot != slot,
    ensures
        occupant(entries_map(s), slot) is None,
{
    lemma_entries_map_props(s);
    let m = entries_map(s);
    if exists|k: u64| m.contains_key(k) && m[k] == slot {
        let k = choose|k: u64| m.contains_key(k) && m[k] == slot;
        let j = choose|j: int| 0 <= j < s.len() && #[trigger] s[j].id == k;
        assert(s[j].slot == slot);
    }
}

proof fn lemma_entries_map_update(s: Seq<SubvolEntry>, i: int, e: SubvolEntry)
    requires
        forall|p: int, q: int| 0 <= p < q < s.len() ==> s[p].id != s[q].id,
        0 <= i < s.len(),
        e.id == s[i].id,
    ensures
        entries_map(s.update(i, e)) =~= entries_map(s).insert(e.id, e.slot),
    decreases s.len(),
{
    let su = s.update(i, e);
    if i == s.len() - 1 {
        assert(su.drop_last() =~= s.drop_last());
        assert(entries_map(su) =~= entries_map(s).insert(e.id, e.slot));
    } else {
        assert(su.drop_last() =~= s.drop_last().update(i, e));
        lemma_entries_map_update(s.drop_last(), i, e);
        assert(su.last() == s.last());
        assert(s.last().id != e.id);
        assert(entries_map(su) =~= entries_map(s).insert(e.id, e.slot));
    }
}

impl VolumeModel {
    /// A volume with no subvolumes.
    pub fn new() -> (r: VolumeModel)
        ensures
            r.wf(),
            r@ =~= Map::<u64, SubvolSlot>::empty(),
    {
        VolumeModel { subvols: Vec::new() }
    }

    /// The index of the subvolume occupying `slot`, if any.
    fn find_slot(&self, slot: SubvolSlot) -> (r: Option<usize>)
        ensures
            match r {
                Some(i) => 0 <= i < self.subvols@.len() && self.subvols@[i as int].slot == slot,
                None => forall|i: int|
                    0 <= i < self.subvols@.len() ==> self.subvols@[i].slot != slot,
            },
    {
        let mut i: usize = 0;
        while i < self.subvols.len()
            invariant
                0 <= i <= self.subvols@.len(),
                forall|j: int| 0 <= j < i ==> self.subvols@[j].slot != slot,
            decreases self.subvols@.len() - i,
        {
            if self.subvols[i].slot == slot {
                return Some(i);
            }
            i = i + 1;
        }
        None
    }

    /// The index of the subvolume with identity `id`, if any.
    fn find_id(&self, id: u64) -> (r: Option<usize>)
        ensures
            match r {
                Some(i) => 0 <= i < self.subvols@.len() && self.subvols@[i as int].id == id,
                None => forall|i: int| 0 <= i < self.subvols@.len() ==> self.subvols@[i].id != id,
            },
    {
        let mut i: usize = 0;
        while i < self.subvols.len()
            invariant
                0 <= i <= self.subvols@.len(),
                forall|j: int| 0 <= j < i ==> self.subvols@[j].id != id,
            decreases self.subvols@.len() - i,
        {
            if self.subvols[i].id == id {
                return Some(i);
            }
            i = i + 1;
        }
        None
    }

    /// The identity of the live root, if one is mounted.
    pub fn live_root(&self) -> (r: Option<u64>)
        requires
            self.wf(),
        ensures
            r == occupant(self@, SubvolSlot::LiveRoot),
    {
        self.occupant_of(SubvolSlot::LiveRoot)
    }

    /// The identity of the subvolume occupying `slot`, if any.
    pub fn occupant_of(&self, slot: SubvolSlot) -> (r: Option<u64>)
        requires
            self.wf(),
        ensures
            r == occupant(self@, slot),
    {
        match self.find_slot(slot) {
            Some(i) => {
                proof {
                    lemma_occupant_some(self.subvols@, i as int);
                }
                Some(self.subvols[i].id)
            },
            None => {
                proof {
                    lemma_occupant_none(self.subvols@, slot);
                }
                None
            },
        }
    }

    /// The slot that the subvolume with identity `id` occupies, if it exists.
    pub fn slot_of(&self, id: u64) -> (r: Option<SubvolSlot>)
        requires
            self.wf(),
        ensures
            match r {
                Some(slot) => self@.contains_key(id) && self@[id] == slot,
                None => !self@.contains_key(id),
            },
    {
        proof {
            lemma_entries_map_props(self.subvols@);
        }
        match self.find_id(id) {
            Some(i) => Some(self.subvols[i].slot),
            None => {
                proof {
                    if self@.contains_key(id) {
                        let j = choose|j: int|
                            0 <= j < self.subvols@.len() && #[trigger] self.subvols@[j].id == id;
                    }
                }
                None
            },
        }
    }

    /// Materialize a snapshot of the live root: a new subvolume with identity
    /// `id` appears at the live root's numbered slot `num`. Refused, and the
    /// volume left unchanged, when no live root is mounted, when the slot
    /// already holds a subvolume, or when the identity is in use.
    pub fn create_snapshot(&mut self, num: u32, id: u64) -> (r: Result<(), VolumeError>)
        requires
            old(self).wf(),
        ensures
            final(self).wf(),
            ({
                let m = old(self)@;
                let live = occupant(m, SubvolSlot::LiveRoot);
                r is Ok <==> (live is Some && occupant(
                    m,
                    SubvolSlot::Numbered { parent: live->0, num },
                ) is None && !m.contains_key(id))
            }),
            ({
                let m = old(self)@;
                let live = occupant(m, SubvolSlot::LiveRoot);
                match r {
                    Ok(()) => {
                        &&& live is Some
                        &&& occupant(m, SubvolSlot::Numbered { parent: live->0, num }) is None
                        &&& !m.contains_key(id)
                        &&& final(self)@ =~= m.insert(
                            id,
                            SubvolSlot::Numbered { parent: live->0, num },
                        )
                    },
                    Err(e) => {
                        &&& final(self)@ =~= m
                        &&& *final(self) == *old(self)
                        &&& (e == VolumeError::NoLiveRoot <==> live is None)
                        &&& (e == VolumeError::SnapshotSlotOccupied <==> live is Some && occupant(
                            m,
                            SubvolSlot::Numbered { parent: live->0, num },
                        ) is Some)
                        &&& (e == VolumeError::IdInUse <==> live is Some && occupant(
                            m,
                            SubvolSlot::Numbered { parent: live->0, num },
                        ) is None && m.contains_key(id))
                    },
                }
            }),
    {
        proof {
            lemma_entries_map_props(self.subvols@);
        }
        let live = match self.live_root() {
            Some(l) => l,
            None => {
                return Err(VolumeError::NoLiveRoot);
            },
        };
        let slot = SubvolSlot::Numbered { parent: live, num };
        if self.occupant_of(slot).is_some() {
            return Err(VolumeError::SnapshotSlotOccupied);
        }
        if self.find_id(id).is_some() {
            return Err(VolumeError::IdInUse);
        }
        proof {
            if self@.contains_key(id) {
                let j = choose|j: int|
                    0 <= j < self.subvols@.len() && #[trigger] self.subvols@[j].id == id;
            }
        }
        let entry = SubvolEntry { id, slot };
        let ghost before = self.subvols@;
        self.subvols.push(entry);
        proof {
            assert(self.subvols@.drop_last() =~= before);
            assert(self.subvols@.last() == entry);
            assert forall|i: int, j: int|
                0 <= i < j < self.subvols@.len() implies self.subvols@[i].id != self.subvols@[j].id
                && self.subvols@[i].slot != self.subvols@[j].slot by {
                if j == self.subvols@.len() - 1 {
                    assert(self.subvols@[i] == before[i]);
                    if before[i].slot == slot {
                        lemma_occupant_some(before, i);
                    }
                }
            }
        }
        Ok(())
    }

    /// Promote the live root's numbered snapshot `num`: the snapshot takes
    /// the live-root slot and the old root becomes the rollback entry nested
    /// under it — a pure exchange of the two slots; every other subvolume
    /// stays where it was. Refused, and the volume left unchanged, when no
    /// live root is mounted, when the snapshot does not exist, or when the
    /// top-level rollback slot or the snapshot's nested rollback slot is
    /// already occupied.
    pub fn promote(&mut self, num: u32) -> (r: Result<(), VolumeError>)
        requires
            old(self).wf(),
        ensures
            final(self).wf(),
            ({
                let m = old(self)@;
                let live = occupant(m, SubvolSlot::LiveRoot);
                let snap = occupant(m, SubvolSlot::Numbered { parent: live->0, num });
                r is Ok <==> (live is Some && snap is Some && occupant(
                    m,
                    SubvolSlot::TopRollback,
                ) is None && occupant(m, SubvolSlot::NestedRollback { parent: snap->0 }) is None)
            }),
            ({
                let m = old(self)@;
                let live = occupant(m, SubvolSlot::LiveRoot);
                let snap = occupant(m, SubvolSlot::Numbered { parent: live->0, num });
                match r {
                    Ok(()) => {
                        &&& live is Some
                        &&& snap is Some
                        &&& occupant(m, SubvolSlot::TopRollback) is None
                        &&& occupant(m, SubvolSlot::NestedRollback { parent: snap->0 }) is None
                        &&& final(self)@ =~= swapped_to_root(m, live->0, snap->0)
                    },
                    Err(e) => {
                        &&& final(self)@ =~= m
                        &&& *final(self) == *old(self)
                        &&& (e == VolumeError::NoLiveRoot <==> live is None)
                        &&& (e == VolumeError::NoSuchSnapshot <==> live is Some && snap is None)
                        &&& (e == VolumeError::TopRollbackOccupied <==> live is Some && snap is Some
                            && occupant(m, SubvolSlot::TopRollback) is Some)
                        &&& (e == VolumeError::NestedRollbackOccupied <==> live is Some
                            && snap is Some && occupant(m, SubvolSlot::TopRollback) is None
                            && occupant(m, SubvolSlot::NestedRollback { parent: snap->0 }) is Some)
                    },
                }
            }),
    {
        let live = match self.live_root() {
            Some(l) => l,
            None => {
                return Err(VolumeError::NoLiveRoot);
            },
        };
        let snap = match self.occupant_of(SubvolSlot::Numbered { parent: live, num }) {
            Some(s) => s,
            None => {
                return Err(VolumeError::NoSuchSnapshot);
            },
        };
        if self.occupant_of(SubvolSlot::TopRollback).is_some() {
            return Err(VolumeError::TopRollbackOccupied);
        }
        if self.occupant_of(SubvolSlot::NestedRollback { parent: snap }).is_some() {
            return Err(VolumeError::NestedRollbackOccupied);
        }
        self.exchange_roots(live, snap);
        Ok(())
    }

    /// Restore the previous root: the live root's nested rollback entry takes
    /// the live-root slot and the displaced root becomes the rollback entry
    /// nested under it — the same exchange as a promotion, with the roles
    /// swapped. Refused, and the volume left unchanged, when no live root is
    /// mounted, when the live root has no nested rollback entry, or when the
    /// top-level rollback slot or the restored root's own nested rollback
    /// slot is already occupied.
    pub fn rollback(&mut self) -> (r: Result<(), VolumeError>)
        requires
            old(self).wf(),
        ensures
            final(self).wf(),
            ({
                let m = old(self)@;
                let live = occupant(m, SubvolSlot::LiveRoot);
                let target = occupant(m, SubvolSlot::NestedRollback { parent: live->0 });
                r is Ok <==> (live is Some && target is Some && occupant(
                    m,
                    SubvolSlot::TopRollback,
                ) is None && occupant(m, SubvolSlot::NestedRollback { parent: target->0 }) is None)
            }),
            ({
                let m = old(self)@;
                let live = occupant(m, SubvolSlot::LiveRoot);
                let target = occupant(m, SubvolSlot::NestedRollback { parent: live->0 });
                match r {
                    Ok(()) => {
                        &&& live is Some
                        &&& target is Some
                        &&& occupant(m, SubvolSlot::TopRollback) is None
                        &&& occupant(m, SubvolSlot::NestedRollback { parent: target->0 }) is None
                        &&& final(self)@ =~= swapped_to_root(m, live->0, target->0)
                    },
                    Err(e) => {
                        &&& final(self)@ =~= m
                        &&& *final(self) == *old(self)
                        &&& (e == VolumeError::NoLiveRoot <==> live is None)
                        &&& (e == VolumeError::NoRollbackTarget <==> live is Some && target is None)
                        &&& (e == VolumeError::TopRollbackOccupied <==> live is Some
                            && target is Some && occupant(m, SubvolSlot::TopRollback) is Some)
                        &&& (e == VolumeError::NestedRollbackOccupied <==> live is Some
                            && target is Some && occupant(m, SubvolSlot::TopRollback) is None
                            && occupant(
                            m,
                            SubvolSlot::NestedRollback { parent: target->0 },
                        ) is Some)
                    },
                }
            }),
    {
        let live = match self.live_root() {
            Some(l) => l,
            None => {
                return Err(VolumeError::NoLiveRoot);
            },
        };
        let target = match self.occupant_of(SubvolSlot::NestedRollback { parent: live }) {
            Some(t) => t,
            None => {
                return Err(VolumeError::NoRollbackTarget);
            },
        };
        if self.occupant_of(SubvolSlot::TopRollback).is_some() {
            return Err(VolumeError::TopRollbackOccupied);
        }
        if self.occupant_of(SubvolSlot::NestedRollback { parent: target }).is_some() {
            return Err(VolumeError::NestedRollbackOccupied);
        }
        self.exchange_roots(live, target);
        Ok(())
    }

    /// The slot exchange shared by promotion and rollback: `new_root` takes
    /// the live-root slot and `old_root` becomes the rollback entry nested
    /// under it.
    fn exchange_roots(&mut self, old_root: u64, new_root: u64)
        requires
            old(self).wf(),
            occupant(old(self)@, SubvolSlot::LiveRoot) == Some(old_root),
            old(self)@.contains_key(new_root),
            new_root != old_root,
            occupant(old(self)@, SubvolSlot::NestedRollback { parent: new_root }) is None,
        ensures
            final(self).wf(),
            final(self)@ =~= swapped_to_root(old(self)@, old_root, new_root),
    {
        proof {
            lemma_entries_map_props(self.subvols@);
        }
        let ghost m0 = self@;
        let ghost s0 = self.subvols@;
        let oi = match self.find_id(old_root) {
            Some(i) => i,
            None => {
                proof {
                    let k = choose|k: u64| m0.contains_key(k) && m0[k] == SubvolSlot::LiveRoot;
                    let j = choose|j: int| 0 <= j < s0.len() && #[trigger] s0[j].id == k;
                }
                unreached()
            },
        };
        let ni = match self.find_id(new_root) {
            Some(i) => i,
            None => {
                proof {
                    let j = choose|j: int| 0 <= j < s0.len() && #[trigger] s0[j].id == new_root;
                }
                unreached()
            },
        };
        proof {
            lemma_occupant_some(s0, oi as int);
            assert(s0[oi as int].slot == SubvolSlot::LiveRoot);
        }
        let old_entry = SubvolEntry {
            id: old_root,
            slot: SubvolSlot::NestedRollback { parent: new_root },
        };
        let new_entry = SubvolEntry { id: new_root, slot: SubvolSlot::LiveRoot };
        self.subvols[oi] = old_entry;
        proof {
            lemma_entries_map_update(s0, oi as int, old_entry);
            let s1 = self.subvols@;
            assert forall|p: int, q: int| 0 <= p < q < s1.len() implies s1[p].id != s1[q].id
                && s1[p].slot != s1[q].slot by {
                if p == oi as int || q == oi as int {
                    let other = if p == oi as int {
                        q
                    } else {
                        p
                    };
                    if s0[other].slot == old_entry.slot {
                        lemma_occupant_some(s0, other);
                    }
                }
            }
        }
        let ghost s1 = self.subvols@;
        self.subvols[ni] = new_entry;
        proof {
            lemma_entries_map_update(s1, ni as int, new_entry);
            let s2 = self.subvols@;
            assert forall|p: int, q: int| 0 <= p < q < s2.len() implies s2[p].id != s2[q].id
                && s2[p].slot != s2[q].slot by {
                if p == ni as int || q == ni as int {
                    let other = if p == ni as int {
                        q
                    } else {
                        p
                    };
                    assert(s2[other] == s1[other]);
                    if s1[other].slot == SubvolSlot::LiveRoot {
                        assert(other != oi as int);
                        assert(s0[other].slot == SubvolSlot::LiveRoot);
                        lemma_occupant_some(s0, other);
                    }
                }
            }
            assert(self@ =~= swapped_to_root(m0, old_root, new_root));
        }
    }
}

} // verus!
