//! The sparse component store: per-entity records holding an optional
//! transform, an optional speed, and the player tag, in creation order.
//!
//! Entity identifiers are allocated from a monotone counter and never
//! reused. A removed entity leaves a dead record behind, so identifiers stay
//! unique and creation order stays stable; queries skip dead records.

use vstd::prelude::*;

use crate::config::Config;

verus! {

/// A point in world space, in subunits (see `crate::config`).
#[derive(Clone, Copy, Debug, PartialEq, Eq, Structural)]
#[verifier::ext_equal]
pub struct Vec3S {
    pub x: i64,
    pub y: i64,
    pub z: i64,
}

/// A planar scale factor, in subunits per source pixel axis.
#[derive(Clone, Copy, Debug, PartialEq, Eq, Structural)]
#[verifier::ext_equal]
pub struct Vec2S {
    pub x: i64,
    pub y: i64,
}

/// Position and scale of an entity.
#[derive(Clone, Copy, Debug, PartialEq, Eq, Structural)]
#[verifier::ext_equal]
pub struct Transform {
    pub translation: Vec3S,
    pub scale: Vec2S,
}

/// Horizontal speed magnitude, in world units per second; never negative.
#[derive(Clone, Copy, Debug, PartialEq, Eq, Structural)]
#[verifier::ext_equal]
pub struct Speed {
    pub units: u32,
}

impl Default for Speed {
    /// The speed every player starts with.
    fn default() -> (s: Speed)
        ensures
            s.units == crate::config::DEFAULT_SPEED,
    {
        Speed { units: crate::config::DEFAULT_SPEED }
    }
}

/// One component instance, as handed to `Store::attach`.
#[derive(Clone, Copy, Debug, PartialEq, Eq, Structural)]
pub enum Component {
    Transform(Transform),
    Speed(Speed),
    PlayerTag,
}

/// A component kind, as named in a query.
#[derive(Clone, Copy, Debug, PartialEq, Eq, Structural)]
pub enum ComponentKind {
    Transform,
    Speed,
    PlayerTag,
}

/// The kind a component instance belongs to.
pub open spec fn kind_of(c: Component) -> ComponentKind {
    match c {
        Component::Transform(_) => ComponentKind::Transform,
        Component::Speed(_) => ComponentKind::Speed,
        Component::PlayerTag => ComponentKind::PlayerTag,
    }
}

/// Per-entity record: the identifier, whether the entity is still live, and
/// one slot per component kind.
#[derive(Clone, Copy, Debug, PartialEq, Eq, Structural)]
#[verifier::ext_equal]
pub struct EntityRecord {
    pub id: u64,
    pub alive: bool,
    pub transform: Option<Transform>,
    pub speed: Option<Speed>,
    pub player: bool,
}

/// Whether a record currently has a component of the given kind attached.
pub open spec fn has_kind(r: EntityRecord, k: ComponentKind) -> bool {
    match k {
        ComponentKind::Transform => r.transform is Some,
        ComponentKind::Speed => r.speed is Some,
        ComponentKind::PlayerTag => r.player,
    }
}

/// Whether a live record has every requested kind attached.
pub open spec fn matches_all(r: EntityRecord, ks: Seq<ComponentKind>) -> bool {
    r.alive && forall|i: int| 0 <= i < ks.len() ==> has_kind(r, ks[i])
}

/// The record with component `c` attached, overwriting any component of the
/// same kind.
pub open spec fn with_component(r: EntityRecord, c: Component) -> EntityRecord {
    match c {
        Component::Transform(t) => EntityRecord { transform: Some(t), ..r },
        Component::Speed(s) => EntityRecord { speed: Some(s), ..r },
        Component::PlayerTag => EntityRecord { player: true, ..r },
    }
}

/// The record with its component of kind `k` detached.
pub open spec fn without_kind(r: EntityRecord, k: ComponentKind) -> EntityRecord {
    match k {
        ComponentKind::Transform => EntityRecord { transform: None, ..r },
        ComponentKind::Speed => EntityRecord { speed: None, ..r },
        ComponentKind::PlayerTag => EntityRecord { player: false, ..r },
    }
}

/// The index of the first record with identifier `id`, or -1 when none has
/// it. Under `Store::wf` identifiers are unique, so "first" is "the".
pub open spec fn idx_of(rs: Seq<EntityRecord>, id: u64) -> int
    decreases rs.len(),
{
    if rs.len() == 0 {
        -1
    } else if rs[0].id == id {
        0
    } else {
        let t = idx_of(rs.drop_first(), id);
        if t == -1 {
            -1
        } else {
            t + 1
        }
    }
}

/// Identifiers of the live records that hold all kinds in `ks`, in creation
/// order: the sequence a query returns.
pub open spec fn matching_ids(rs: Seq<EntityRecord>, ks: Seq<ComponentKind>) -> Seq<u64>
    decreases rs.len(),
{
    if rs.len() == 0 {
        Seq::empty()
    } else {
        matching_ids(rs.drop_last(), ks) + if matches_all(rs.last(), ks) {
            seq![rs.last().id]
        } else {
            Seq::empty()
        }
    }
}

/// A fresh record: live, with no components attached.
pub open spec fn fresh_record(id: u64) -> EntityRecord {
    EntityRecord { id, alive: true, transform: None, speed: None, player: false }
}

/// The record of a removed entity: dead, with every component detached; the
/// identifier is kept so it is never reused.
pub open spec fn cleared(r: EntityRecord) -> EntityRecord {
    EntityRecord { alive: false, transform: None, speed: None, player: false, ..r }
}

/// Whether `id` names a live entity of the store.
pub open spec fn live_at(rs: Seq<EntityRecord>, id: u64) -> bool {
    idx_of(rs, id) >= 0 && rs[idx_of(rs, id)].alive
}

/// The records after attaching `c` to entity `id`: a no-op when `id` names
/// no live entity.
pub open spec fn attached(rs: Seq<EntityRecord>, id: u64, c: Component) -> Seq<EntityRecord> {
    if live_at(rs, id) {
        rs.update(idx_of(rs, id), with_component(rs[idx_of(rs, id)], c))
    } else {
        rs
    }
}

/// The records after detaching the component of kind `k` from entity `id`:
/// a no-op when `id` names no live entity.
pub open spec fn detached(rs: Seq<EntityRecord>, id: u64, k: ComponentKind) -> Seq<
    EntityRecord,
> {
    if live_at(rs, id) {
        rs.update(idx_of(rs, id), without_kind(rs[idx_of(rs, id)], k))
    } else {
        rs
    }
}

/// The records after removing entity `id`: a no-op when `id` names no live
/// entity.
pub open spec fn removed(rs: Seq<EntityRecord>, id: u64) -> Seq<EntityRecord> {
    if live_at(rs, id) {
        rs.update(idx_of(rs, id), cleared(rs[idx_of(rs, id)]))
    } else {
        rs
    }
}

/// The transform of live entity `id`, if any.
pub open spec fn transform_of(rs: Seq<EntityRecord>, id: u64) -> Option<Transform> {
    if live_at(rs, id) {
        rs[idx_of(rs, id)].transform
    } else {
        None
    }
}

/// The speed of live entity `id`, if any.
pub open spec fn speed_of(rs: Seq<EntityRecord>, id: u64) -> Option<Speed> {
    if live_at(rs, id) {
        rs[idx_of(rs, id)].speed
    } else {
        None
    }
}

/// `idx_of` finds `i` when `i` holds `id` and no earlier record does.
pub proof fn lemma_idx_of_found(rs: Seq<EntityRecord>, id: u64, i: int)
    requires
        0 <= i < rs.len(),
        rs[i].id == id,
        forall|j: int| 0 <= j < i ==> rs[j].id != id,
    ensures
        idx_of(rs, id) == i,
    decreases i,
{
    if i == 0 {
    } else {
        assert(rs[0].id != id);
        assert forall|j: int| 0 <= j < i - 1 implies rs.drop_first()[j].id != id by {
            assert(rs.drop_first()[j] == rs[j + 1]);
        }
        assert(rs.drop_first()[i - 1] == rs[i]);
        lemma_idx_of_found(rs.drop_first(), id, i - 1);
    }
}

/// `idx_of` finds nothing when no record holds `id`.
pub proof fn lemma_idx_of_none(rs: Seq<EntityRecord>, id: u64)
    requires
        forall|j: int| 0 <= j < rs.len() ==> rs[j].id != id,
    ensures
        idx_of(rs, id) == -1,
    decreases rs.len(),
{
    if rs.len() == 0 {
    } else {
        assert forall|j: int| 0 <= j < rs.drop_first().len() implies rs.drop_first()[j].id != id by {
            assert(rs.drop_first()[j] == rs[j + 1]);
        }
        lemma_idx_of_none(rs.drop_first(), id);
    }
}

/// `idx_of` is either -1 or a valid index whose record holds `id`.
pub proof fn lemma_idx_of_in_range(rs: Seq<EntityRecord>, id: u64)
    ensures
        idx_of(rs, id) == -1 || (0 <= idx_of(rs, id) < rs.len() && rs[idx_of(rs, id)].id == id),
    decreases rs.len(),
{
    if rs.len() == 0 {
    } else if rs[0].id == id {
    } else {
        lemma_idx_of_in_range(rs.drop_first(), id);
        if idx_of(rs.drop_first(), id) >= 0 {
            assert(rs.drop_first()[idx_of(rs.drop_first(), id)] == rs[idx_of(rs.drop_first(), id)
                + 1]);
        }
    }
}

/// Extending the scanned prefix by one record appends that record's
/// identifier to the matches exactly when it matches.
pub proof fn lemma_matching_step(rs: Seq<EntityRecord>, ks: Seq<ComponentKind>, i: int)
    requires
        0 <= i < rs.len(),
    ensures
        matching_ids(rs.take(i + 1), ks) == matching_ids(rs.take(i), ks) + (if matches_all(
            rs[i],
            ks,
        ) {
            seq![rs[i].id]
        } else {
            Seq::<u64>::empty()
        }),
{
    let s = rs.take(i + 1);
    assert(s.drop_last() =~= rs.take(i));
    assert(s.last() == rs[i]);
}

/// A record that matches contributes its identifier to the query result.
pub proof fn lemma_matching_contains(rs: Seq<EntityRecord>, ks: Seq<ComponentKind>, j: int)
    requires
        0 <= j < rs.len(),
        matches_all(rs[j], ks),
    ensures
        matching_ids(rs, ks).contains(rs[j].id),
    decreases rs.len(),
{
    if j == rs.len() - 1 {
        assert(matching_ids(rs, ks).last() == rs[j].id);
    } else {
        assert(rs.drop_last()[j] == rs[j]);
        lemma_matching_contains(rs.drop_last(), ks, j);
        let sub = matching_ids(rs.drop_last(), ks);
        let k = choose|k: int| 0 <= k < sub.len() && sub[k] == rs[j].id;
        assert(matching_ids(rs, ks)[k] == rs[j].id);
    }
}

/// `idx_of` reads only the identifiers: two record sequences with the same
/// identifiers agree on it.
pub proof fn lemma_idx_of_same_ids(rs1: Seq<EntityRecord>, rs2: Seq<EntityRecord>, id: u64)
    requires
        rs1.len() == rs2.len(),
        forall|i: int| 0 <= i < rs1.len() ==> rs1[i].id == rs2[i].id,
    ensures
        idx_of(rs1, id) == idx_of(rs2, id),
    decreases rs1.len(),
{
    if rs1.len() == 0 {
    } else {
        assert(rs1[0].id == rs2[0].id);
        assert forall|i: int| 0 <= i < rs1.drop_first().len() implies rs1.drop_first()[i].id
            == rs2.drop_first()[i].id by {
            assert(rs1.drop_first()[i] == rs1[i + 1]);
            assert(rs2.drop_first()[i] == rs2[i + 1]);
        }
        lemma_idx_of_same_ids(rs1.drop_first(), rs2.drop_first(), id);
    }
}

/// Read-after-write consistency: attaching a component to a live entity
/// and, within the same tick, reading or querying that component kind on
/// the same entity returns the just-attached value.
pub proof fn lemma_attach_then_query(rs: Seq<EntityRecord>, id: u64, c: Component)
    requires
        live_at(rs, id),
    ensures
        (c matches Component::Transform(t) ==> transform_of(attached(rs, id, c), id) == Some(t)),
        (c matches Component::Speed(s) ==> speed_of(attached(rs, id, c), id) == Some(s)),
        live_at(attached(rs, id, c), id),
        has_kind(attached(rs, id, c)[idx_of(attached(rs, id, c), id)], kind_of(c)),
        matching_ids(attached(rs, id, c), seq![kind_of(c)]).contains(id),
{
    let j = idx_of(rs, id);
    lemma_idx_of_in_range(rs, id);
    let rs2 = attached(rs, id, c);
    assert(rs2[j] == with_component(rs[j], c));
    assert forall|i: int| 0 <= i < rs2.len() implies rs2[i].id == rs[i].id by {
        if i != j {
            assert(rs2[i] == rs[i]);
        }
    }
    lemma_idx_of_same_ids(rs2, rs, id);
    assert(rs2[j].alive);
    let ks = seq![kind_of(c)];
    assert(ks[0] == kind_of(c));
    assert(has_kind(rs2[j], kind_of(c)));
    assert(matches_all(rs2[j], ks));
    lemma_matching_contains(rs2, ks, j);
}

/// A query over records none of which matches returns nothing.
pub proof fn lemma_matching_empty(rs: Seq<EntityRecord>, ks: Seq<ComponentKind>)
    requires
        forall|j: int| 0 <= j < rs.len() ==> !matches_all(rs[j], ks),
    ensures
        matching_ids(rs, ks) == Seq::<u64>::empty(),
    decreases rs.len(),
{
    if rs.len() == 0 {
    } else {
        assert forall|j: int| 0 <= j < rs.drop_last().len() implies !matches_all(
            rs.drop_last()[j],
            ks,
        ) by {
            assert(rs.drop_last()[j] == rs[j]);
        }
        lemma_matching_empty(rs.drop_last(), ks);
        assert(!matches_all(rs.last(), ks));
        assert(matching_ids(rs, ks) =~= Seq::<u64>::empty());
    }
}

/// The component store: records in creation order plus the next fresh
/// identifier and the run's configuration.
pub struct Store {
    pub records: Vec<EntityRecord>,
    pub next_id: u64,
    pub config: Config,
}

impl Store {
    /// Well-formedness: the configuration is valid, identifiers grow
    /// strictly in creation order (so they are unique), and every
    /// identifier is below the next fresh one.
    pub open spec fn wf(self) -> bool {
        &&& self.config.wf()
        &&& forall|i: int, j: int|
            0 <= i < j < self.records@.len() ==> self.records@[i].id < self.records@[j].id
        &&& forall|i: int| 0 <= i < self.records@.len() ==> self.records@[i].id < self.next_id
    }

    /// An empty store under the given configuration.
    pub fn new(config: Config) -> (s: Store)
        requires
            config.wf(),
        ensures
            s.wf(),
            s.records@ == Seq::<EntityRecord>::empty(),
            s.next_id == 0,
            s.config == config,
    {
        Store { records: Vec::new(), next_id: 0, config }
    }

    /// Allocates a fresh, never-reused identifier and adds a live entity
    /// with no components.
    pub fn create_entity(&mut self) -> (id: u64)
        requires
            old(self).wf(),
            old(self).next_id < u64::MAX,
        ensures
            final(self).wf(),
            id == old(self).next_id,
            final(self).records@ == old(self).records@.push(fresh_record(id)),
            final(self).next_id == old(self).next_id + 1,
            final(self).config == old(self).config,
    {
        let id = self.next_id;
        self.records.push(EntityRecord {
            id,
            alive: true,
            transform: None,
            speed: None,
            player: false,
        });
        self.next_id = id + 1;
        id
    }

    /// The index of the record holding `id`, if one does.
    fn find_index(&self, id: u64) -> (r: Option<usize>)
        ensures
            (match r {
                Some(i) => idx_of(self.records@, id) == i && i < self.records@.len()
                    && self.records@[i as int].id == id,
                None => idx_of(self.records@, id) == -1,
            }),
    {
        let n = self.records.len();
        let mut i: usize = 0;
        while i < n
            invariant
                n == self.records@.len(),
                i <= n,
                forall|j: int| 0 <= j < i ==> self.records@[j].id != id,
            decreases n - i,
        {
            if self.records[i].id == id {
                proof {
                    lemma_idx_of_found(self.records@, id, i as int);
                }
                return Some(i);
            }
            i += 1;
        }
        proof {
            lemma_idx_of_none(self.records@, id);
        }
        None
    }

    /// Associates `c` with entity `id`, overwriting any component of the
    /// same kind; a no-op when `id` names no live entity.
    pub fn attach(&mut self, id: u64, c: Component)
        requires
            old(self).wf(),
        ensures
            final(self).wf(),
            final(self).records@ == attached(old(self).records@, id, c),
            final(self).next_id == old(self).next_id,
            final(self).config == old(self).config,
    {
        match self.find_index(id) {
            Some(j) => {
                let r = self.records[j];
                if r.alive {
                    let nr = match c {
                        Component::Transform(t) => EntityRecord { transform: Some(t), ..r },
                        Component::Speed(s) => EntityRecord { speed: Some(s), ..r },
                        Component::PlayerTag => EntityRecord { player: true, ..r },
                    };
                    self.records[j] = nr;
                    assert(nr.id == r.id);
                }
            },
            None => {},
        }
    }

    /// Detaches the component of kind `k` from entity `id`; a no-op when
    /// the entity is not live (detaching an absent component leaves the
    /// record as it is).
    pub fn detach(&mut self, id: u64, k: ComponentKind)
        requires
            old(self).wf(),
        ensures
            final(self).wf(),
            final(self).records@ == detached(old(self).records@, id, k),
            final(self).next_id == old(self).next_id,
            final(self).config == old(self).config,
    {
        match self.find_index(id) {
            Some(j) => {
                let r = self.records[j];
                if r.alive {
                    let nr = match k {
                        ComponentKind::Transform => EntityRecord { transform: None, ..r },
                        ComponentKind::Speed => EntityRecord { speed: None, ..r },
                        ComponentKind::PlayerTag => EntityRecord { player: false, ..r },
                    };
                    self.records[j] = nr;
                    assert(nr.id == r.id);
                }
            },
            None => {},
        }
    }

    /// Detaches every component of entity `id` and invalidates the
    /// identifier; a no-op when the entity is not live.
    pub fn remove(&mut self, id: u64)
        requires
            old(self).wf(),
        ensures
            final(self).wf(),
            final(self).records@ == removed(old(self).records@, id),
            final(self).next_id == old(self).next_id,
            final(self).config == old(self).config,
    {
        match self.find_index(id) {
            Some(j) => {
                let r = self.records[j];
                if r.alive {
                    let nr = EntityRecord {
                        id: r.id,
                        alive: false,
                        transform: None,
                        speed: None,
                        player: false,
                    };
                    self.records[j] = nr;
                    assert(nr == cleared(r));
                }
            },
            None => {},
        }
    }

    /// The transform of live entity `id`, if one is attached.
    pub fn get_transform(&self, id: u64) -> (r: Option<Transform>)
        ensures
            r == transform_of(self.records@, id),
    {
        match self.find_index(id) {
            Some(j) => {
                let rec = self.records[j];
                if rec.alive {
                    rec.transform
                } else {
                    None
                }
            },
            None => None,
        }
    }

    /// The speed of live entity `id`, if one is attached.
    pub fn get_speed(&self, id: u64) -> (r: Option<Speed>)
        ensures
            r == speed_of(self.records@, id),
    {
        match self.find_index(id) {
            Some(j) => {
                let rec = self.records[j];
                if rec.alive {
                    rec.speed
                } else {
                    None
                }
            },
            None => None,
        }
    }

    /// Whether live entity `id` currently has a component of kind `k`.
    pub fn has_component(&self, id: u64, k: ComponentKind) -> (r: bool)
        ensures
            r == (live_at(self.records@, id) && has_kind(
                self.records@[idx_of(self.records@, id)],
                k,
            )),
    {
        match self.find_index(id) {
            Some(j) => {
                let rec = self.records[j];
                rec.alive && record_has_kind(&rec, k)
            },
            None => false,
        }
    }

    /// The identifiers of the live entities holding all kinds in `kinds`,
    /// in creation order. Queries are total: the kind enumeration is
    /// closed, and a query nothing matches returns the empty vector rather
    /// than failing.
    pub fn query(&self, kinds: &Vec<ComponentKind>) -> (r: Vec<u64>)
        ensures
            r@ == matching_ids(self.records@, kinds@),
    {
        let n = self.records.len();
        let mut res: Vec<u64> = Vec::new();
        let mut i: usize = 0;
        while i < n
            invariant
                n == self.records@.len(),
                i <= n,
                res@ == matching_ids(self.records@.take(i as int), kinds@),
            decreases n - i,
        {
            proof {
                lemma_matching_step(self.records@, kinds@, i as int);
            }
            let rec = self.records[i];
            if record_matches(&rec, kinds) {
                res.push(rec.id);
                proof {
                    assert(res@ =~= matching_ids(self.records@.take(i + 1), kinds@));
                }
            }
            i += 1;
        }
        proof {
            assert(self.records@.take(n as int) =~= self.records@);
        }
        res
    }
}

/// Whether record `r` has a component of kind `k` attached.
pub fn record_has_kind(r: &EntityRecord, k: ComponentKind) -> (b: bool)
    ensures
        b == has_kind(*r, k),
{
    match k {
        ComponentKind::Transform => r.transform.is_some(),
        ComponentKind::Speed => r.speed.is_some(),
        ComponentKind::PlayerTag => r.player,
    }
}

/// Whether record `r` is live and has every kind in `kinds` attached.
pub fn record_matches(r: &EntityRecord, kinds: &Vec<ComponentKind>) -> (b: bool)
    ensures
        b == matches_all(*r, kinds@),
{
    if !r.alive {
        return false;
    }
    let n = kinds.len();
    let mut i: usize = 0;
    while i < n
        invariant
            n == kinds@.len(),
            i <= n,
            r.alive,
            forall|j: int| 0 <= j < i ==> has_kind(*r, kinds@[j]),
        decreases n - i,
    {
        if !record_has_kind(r, kinds[i]) {
            return false;
        }
        i += 1;
    }
    true
}

} // verus!
