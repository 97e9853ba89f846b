//! The spawn routine and the movement system.
//!
//! `initialize` builds the store and spawns the single player entity from
//! the viewport dimensions. `tick` advances the player once per fixed tick:
//! it queries the unique entity holding speed, transform and the player tag,
//! resolves the pressed movement keys to a direction (left before right),
//! and adds `speed * dt * direction` to the horizontal translation. With
//! zero or several matches a tick mutates nothing.

use vstd::prelude::*;

use crate::config::Config;
use crate::config::POS_LIMIT;
use crate::config::TickDt;
use crate::config::Viewport;
use crate::store::Component;
use crate::store::ComponentKind;
use crate::store::EntityRecord;
use crate::store::Speed;
use crate::store::Store;
use crate::store::Transform;
use crate::store::Vec2S;
use crate::store::Vec3S;
use crate::store::matches_all;

verus! {

/// The keyboard state sampled by the host at a tick boundary: which of the
/// two logical movement keys are currently held down.
#[derive(Clone, Copy, Debug, PartialEq, Eq, Structural)]
pub struct KeyState {
    pub move_left: bool,
    pub move_right: bool,
}

/// Direction the player moves this tick: left wins over right when both
/// keys are held.
pub open spec fn dir_of(keys: KeyState) -> int {
    if keys.move_left {
        -1
    } else if keys.move_right {
        1
    } else {
        0
    }
}

/// Horizontal displacement of one tick, in subunits:
/// `speed * dt * dir` world units is `4 * speed.units * dt.num * dir`
/// subunits at scale `4 * dt.den`.
pub open spec fn disp_of(cfg: Config, speed: Speed, keys: KeyState) -> int {
    4 * speed.units * cfg.dt.num * dir_of(keys)
}

/// The kinds the movement system queries: speed, transform, player tag.
pub open spec fn player_query() -> Seq<ComponentKind> {
    seq![ComponentKind::Speed, ComponentKind::Transform, ComponentKind::PlayerTag]
}

/// The query kinds of the movement system, as a vector for `Store::query`.
pub fn player_kinds() -> (v: Vec<ComponentKind>)
    ensures
        v@ == player_query(),
{
    let mut v: Vec<ComponentKind> = Vec::new();
    v.push(ComponentKind::Speed);
    v.push(ComponentKind::Transform);
    v.push(ComponentKind::PlayerTag);
    proof {
        assert(v@ =~= player_query());
    }
    v
}

/// Whether index `j` holds a record matching the kinds `ks`.
pub open spec fn match_at(rs: Seq<EntityRecord>, ks: Seq<ComponentKind>, j: int) -> bool {
    0 <= j < rs.len() && matches_all(rs[j], ks)
}

/// Whether index `j` holds the only record matching the kinds `ks`.
pub open spec fn single_match_at(rs: Seq<EntityRecord>, ks: Seq<ComponentKind>, j: int) -> bool {
    match_at(rs, ks, j) && forall|i: int| match_at(rs, ks, i) ==> i == j
}

/// The record with its horizontal translation set to `nx`; meaningful only
/// for records with a transform attached.
pub open spec fn with_x(r: EntityRecord, nx: int) -> EntityRecord {
    match r.transform {
        Some(t) => EntityRecord {
            transform: Some(
                Transform {
                    translation: Vec3S { x: nx as i64, y: t.translation.y, z: t.translation.z },
                    scale: t.scale,
                },
            ),
            ..r
        },
        None => r,
    }
}

/// The record after a displacement of `d` subunits: the horizontal
/// translation moves exactly when the result stays within
/// `[-POS_LIMIT, POS_LIMIT]`, and nothing else changes.
pub open spec fn moved_record(r: EntityRecord, d: int) -> EntityRecord {
    match r.transform {
        Some(t) => {
            let nx = t.translation.x + d;
            if -POS_LIMIT <= nx <= POS_LIMIT {
                with_x(r, nx)
            } else {
                r
            }
        },
        None => r,
    }
}

/// The records after one tick: when exactly one record matches the player
/// query, that record moves by `speed * dt * dir`; otherwise nothing
/// changes.
pub open spec fn tick_records(rs: Seq<EntityRecord>, cfg: Config, keys: KeyState) -> Seq<
    EntityRecord,
> {
    if exists|j: int| single_match_at(rs, player_query(), j) {
        let j = choose|j: int| single_match_at(rs, player_query(), j);
        let spd = match rs[j].speed {
            Some(s) => s,
            None => Speed { units: 0 },
        };
        rs.update(j, moved_record(rs[j], disp_of(cfg, spd, keys)))
    } else {
        rs
    }
}

/// The records after `n` ticks under the same keyboard state.
pub open spec fn ticks_n(rs: Seq<EntityRecord>, cfg: Config, keys: KeyState, n: nat) -> Seq<
    EntityRecord,
>
    decreases n,
{
    if n == 0 {
        rs
    } else {
        tick_records(ticks_n(rs, cfg, keys, (n - 1) as nat), cfg, keys)
    }
}

/// The vertical spawn translation in subunits:
/// `-height/2 + offset/4` world units at scale `4 * dt.den`.
pub open spec fn spawn_y(viewport: Viewport, cfg: Config) -> int {
    (cfg.spawn_offset_quarters - 2 * viewport.height) * cfg.dt.den
}

/// The transform the player spawns with: horizontally centred, near the
/// bottom edge, at draw depth `PLAYER_DEPTH` (10 world units, so
/// `40 * dt.den` subunits), at half scale.
pub open spec fn spawn_transform(viewport: Viewport, cfg: Config) -> Transform {
    Transform {
        translation: Vec3S {
            x: 0,
            y: spawn_y(viewport, cfg) as i64,
            z: (40 * cfg.dt.den) as i64,
        },
        scale: Vec2S { x: (2 * cfg.dt.den) as i64, y: (2 * cfg.dt.den) as i64 },
    }
}

/// The player record as spawned: entity 0, live, with the spawn transform,
/// the configured default speed, and the player tag.
pub open spec fn player_record(viewport: Viewport, cfg: Config) -> EntityRecord {
    EntityRecord {
        id: 0,
        alive: true,
        transform: Some(spawn_transform(viewport, cfg)),
        speed: Some(Speed { units: cfg.default_speed }),
        player: true,
    }
}

/// Builds the store and spawns the player entity: run once by the host,
/// strictly after the viewport is known and before the first tick.
pub fn initialize(viewport: Viewport, config: Config) -> (s: Store)
    requires
        viewport.wf(),
        config.wf(),
    ensures
        s.wf(),
        s.config == config,
        s.next_id == 1,
        s.records@ =~= seq![player_record(viewport, config)],
{
    let mut s = Store::new(config);
    let id = s.create_entity();
    let q: i64 = config.spawn_offset_quarters as i64 - 2 * (viewport.height as i64);
    let den: i64 = config.dt.den as i64;
    proof {
        assert(-5_000_000_000_000_000 <= q * den <= 5_000_000_000_000_000) by (nonlinear_arith)
            requires
                -3_000_000_000 <= q <= 3_000_000_000,
                1 <= den <= 1_000_000,
        ;
    }
    let y: i64 = q * den;
    let z: i64 = 40 * den;
    let half: i64 = 2 * (config.dt.den as i64);
    let t = Transform { translation: Vec3S { x: 0, y, z }, scale: Vec2S { x: half, y: half } };
    s.attach(id, Component::Transform(t));
    s.attach(id, Component::Speed(Speed { units: config.default_speed }));
    s.attach(id, Component::PlayerTag);
    proof {
        assert(t == spawn_transform(viewport, config));
        assert(s.records@ =~= seq![player_record(viewport, config)]);
    }
    s
}

/// Advances the world by one fixed tick of the configured duration `dt`:
/// when exactly one entity holds speed, transform and the player tag, its
/// horizontal translation moves by `speed * dt * direction`; with zero or
/// several matches the tick is a silent no-op.
pub fn tick(store: &mut Store, keys: &KeyState, dt: TickDt)
    requires
        old(store).wf(),
        dt == old(store).config.dt,
    ensures
        final(store).wf(),
        final(store).records@ == tick_records(old(store).records@, old(store).config, *keys),
        final(store).next_id == old(store).next_id,
        final(store).config == old(store).config,
{
    let ghost rs = store.records@;
    let ghost pq = player_query();
    let kinds = player_kinds();
    let n = store.records.len();
    let mut i: usize = 0;
    let mut cnt: usize = 0;
    let mut f: usize = 0;
    let ghost mut w1: int = 0;
    let ghost mut w2: int = 0;
    while i < n
        invariant
            n == rs.len(),
            rs == store.records@,
            kinds@ == pq,
            pq == player_query(),
            i <= n,
            cnt <= 2,
            cnt == 0 ==> forall|j: int| 0 <= j < i ==> !matches_all(rs[j], pq),
            cnt == 1 ==> f < i && matches_all(rs[f as int], pq) && forall|j: int|
                0 <= j < i && matches_all(rs[j], pq) ==> j == f,
            cnt == 2 ==> 0 <= w1 < w2 < i && matches_all(rs[w1], pq) && matches_all(rs[w2], pq),
        decreases n - i,
    {
        let rec = store.records[i];
        if crate::store::record_matches(&rec, &kinds) {
            if cnt == 0 {
                f = i;
                cnt = 1;
            } else {
                if cnt == 1 {
                    proof {
                        w1 = f as int;
                        w2 = i as int;
                    }
                }
                cnt = 2;
            }
        }
        i += 1;
    }
    if cnt == 1 {
        proof {
            assert(single_match_at(rs, pq, f as int));
            let j0 = choose|j: int| single_match_at(rs, pq, j);
            assert(match_at(rs, pq, j0));
            assert(j0 == f as int);
        }
        let rec = store.records[f];
        proof {
            assert(has_kind_at(rec, pq, 0));
            assert(has_kind_at(rec, pq, 1));
        }
        let sp = rec.speed.unwrap();
        let t = rec.transform.unwrap();
        let u: i64 = sp.units as i64;
        let num: i64 = store.config.dt.num as i64;
        proof {
            assert(0 <= (4 * u) * num <= 20_000_000_000_000_000) by (nonlinear_arith)
                requires
                    0 <= u <= 5_000_000_000,
                    1 <= num <= 1_000_000,
            ;
        }
        let base: i64 = 4 * u * num;
        let d: i64 = if keys.move_left {
            -base
        } else if keys.move_right {
            base
        } else {
            0
        };
        proof {
            let t0 = 4 * sp.units * store.config.dt.num;
            assert(t0 * (-1) == -t0 && t0 * 1 == t0 && t0 * 0 == 0) by (nonlinear_arith);
            assert(d == disp_of(store.config, sp, *keys));
        }
        let nx_wide: i128 = (t.translation.x as i128) + (d as i128);
        if -(POS_LIMIT as i128) <= nx_wide && nx_wide <= POS_LIMIT as i128 {
            let nx: i64 = nx_wide as i64;
            let nr = EntityRecord {
                transform: Some(
                    Transform {
                        translation: Vec3S { x: nx, y: t.translation.y, z: t.translation.z },
                        scale: t.scale,
                    },
                ),
                ..rec
            };
            self_update(store, f, nr);
            proof {
                assert(nr == moved_record(rec, disp_of(store.config, sp, *keys)));
                assert(store.records@ == tick_records(rs, store.config, *keys));
            }
        } else {
            proof {
                assert(moved_record(rec, disp_of(store.config, sp, *keys)) == rec);
                assert(rs.update(f as int, rec) =~= rs);
                assert(store.records@ == tick_records(rs, store.config, *keys));
            }
        }
    } else {
        proof {
            if cnt == 0 {
                assert forall|j: int| !single_match_at(rs, pq, j) by {
                    if match_at(rs, pq, j) {
                        assert(matches_all(rs[j], pq));
                    }
                }
            } else {
                assert(cnt == 2);
                assert forall|j: int| !single_match_at(rs, pq, j) by {
                    if single_match_at(rs, pq, j) {
                        assert(match_at(rs, pq, w1));
                        assert(match_at(rs, pq, w2));
                    }
                }
            }
            assert(store.records@ == tick_records(rs, store.config, *keys));
        }
    }
}

/// The horizontal translation of a record, in subunits; 0 without a
/// transform.
pub open spec fn x_of(r: EntityRecord) -> int {
    match r.transform {
        Some(t) => t.translation.x as int,
        None => 0,
    }
}

/// The speed magnitude of a record, in units per second; 0 without a speed.
pub open spec fn speed_units_of(r: EntityRecord) -> int {
    match r.speed {
        Some(s) => s.units as int,
        None => 0,
    }
}

/// After `initialize` the player entity stands exactly where the spawn
/// routine promises: horizontally centred (`x == 0`), `offset/4` world
/// units above the bottom edge (`y == -height/2 + offset/4`, stated over
/// subunits: `4*y == scale * (offset - 2*height)`), at draw depth
/// `PLAYER_DEPTH`, at half scale on both axes, with the configured default
/// speed and the player tag.
pub proof fn lemma_spawn_placement(viewport: Viewport, config: Config)
    requires
        viewport.wf(),
        config.wf(),
    ensures
        ({
            let r = player_record(viewport, config);
            let t = spawn_transform(viewport, config);
            &&& r.transform == Some::<Transform>(t)
            &&& r.speed == Some(Speed { units: config.default_speed })
            &&& r.player
            &&& t.translation.x == 0
            &&& 4 * t.translation.y == config.scale() * (config.spawn_offset_quarters - 2
                * viewport.height)
            &&& t.translation.z == config.scale() * crate::config::PLAYER_DEPTH
            &&& 2 * t.scale.x == config.scale()
            &&& 2 * t.scale.y == config.scale()
        }),
{
    let o = config.spawn_offset_quarters as int;
    let h = viewport.height as int;
    let den = config.dt.den as int;
    assert(-5_000_000_000_000_000 <= (o - 2 * h) * den <= 5_000_000_000_000_000) by (
    nonlinear_arith)
        requires
            -3_000_000_000 <= o - 2 * h <= 3_000_000_000,
            1 <= den <= 1_000_000,
    ;
    assert(spawn_y(viewport, config) as i64 == spawn_y(viewport, config));
    assert(4 * ((o - 2 * h) * den) == (4 * den) * (o - 2 * h)) by (nonlinear_arith);
    assert(40 * den == (4 * den) * 10) by (nonlinear_arith);
}

/// With no movement key pressed, a tick leaves every record unchanged —
/// and so does any number of ticks.
pub proof fn lemma_no_keys_no_motion(rs: Seq<EntityRecord>, cfg: Config, keys: KeyState, n: nat)
    requires
        dir_of(keys) == 0,
    ensures
        tick_records(rs, cfg, keys) == rs,
        ticks_n(rs, cfg, keys, n) == rs,
    decreases n,
{
    let pq = player_query();
    if exists|j: int| single_match_at(rs, pq, j) {
        let j = choose|j: int| single_match_at(rs, pq, j);
        let spd = match rs[j].speed {
            Some(s) => s,
            None => Speed { units: 0 },
        };
        assert(disp_of(cfg, spd, keys) == 0);
        let r = rs[j];
        match r.transform {
            Some(t) => {
                if -POS_LIMIT <= t.translation.x + 0 <= POS_LIMIT {
                    assert(with_x(r, t.translation.x as int) =~= r);
                }
                assert(moved_record(r, 0) == r);
            },
            None => {},
        }
        assert(rs.update(j, r) =~= rs);
    }
    if n > 0 {
        lemma_no_keys_no_motion(rs, cfg, keys, (n - 1) as nat);
    }
}

/// A tick reads the keyboard only through the resolved direction: two
/// keyboard states with the same direction produce the same tick.
pub proof fn lemma_direction_determines_tick(
    rs: Seq<EntityRecord>,
    cfg: Config,
    k1: KeyState,
    k2: KeyState,
)
    requires
        dir_of(k1) == dir_of(k2),
    ensures
        tick_records(rs, cfg, k1) == tick_records(rs, cfg, k2),
{
}

/// Pressing move-left and move-right in the same tick behaves identically
/// to pressing only move-left: left takes precedence.
pub proof fn lemma_left_precedence(rs: Seq<EntityRecord>, cfg: Config)
    ensures
        tick_records(rs, cfg, KeyState { move_left: true, move_right: true }) == tick_records(
            rs,
            cfg,
            KeyState { move_left: true, move_right: false },
        ),
{
    lemma_direction_determines_tick(
        rs,
        cfg,
        KeyState { move_left: true, move_right: true },
        KeyState { move_left: true, move_right: false },
    );
}

/// With zero records matching the player query — for instance after the
/// player tag was detached — any number of ticks leaves the records
/// unchanged: no error, no mutation.
pub proof fn lemma_zero_matches_skip(rs: Seq<EntityRecord>, cfg: Config, keys: KeyState, n: nat)
    requires
        crate::store::matching_ids(rs, player_query()) == Seq::<u64>::empty(),
    ensures
        tick_records(rs, cfg, keys) == rs,
        ticks_n(rs, cfg, keys, n) == rs,
    decreases n,
{
    let pq = player_query();
    assert forall|j: int| 0 <= j < rs.len() implies !matches_all(rs[j], pq) by {
        if matches_all(rs[j], pq) {
            crate::store::lemma_matching_contains(rs, pq, j);
        }
    }
    assert forall|j: int| !single_match_at(rs, pq, j) by {
        if single_match_at(rs, pq, j) {
            assert(matches_all(rs[j], pq));
        }
    }
    if n > 0 {
        lemma_zero_matches_skip(rs, cfg, keys, (n - 1) as nat);
    }
}

/// With `j` the only index matching `ks`, a query for `ks` returns exactly
/// that record's identifier.
pub proof fn lemma_single_match_query(rs: Seq<EntityRecord>, ks: Seq<ComponentKind>, j: int)
    requires
        single_match_at(rs, ks, j),
    ensures
        crate::store::matching_ids(rs, ks) == seq![rs[j].id],
    decreases rs.len(),
{
    if j == rs.len() - 1 {
        assert forall|i: int| 0 <= i < rs.drop_last().len() implies !matches_all(
            rs.drop_last()[i],
            ks,
        ) by {
            assert(rs.drop_last()[i] == rs[i]);
            if matches_all(rs[i], ks) {
                assert(match_at(rs, ks, i));
            }
        }
        crate::store::lemma_matching_empty(rs.drop_last(), ks);
        assert(crate::store::matching_ids(rs, ks) =~= seq![rs[j].id]);
    } else {
        assert(!matches_all(rs.last(), ks)) by {
            if matches_all(rs.last(), ks) {
                assert(match_at(rs, ks, rs.len() - 1));
            }
        }
        assert(rs.drop_last()[j] == rs[j]);
        assert(single_match_at(rs.drop_last(), ks, j)) by {
            assert forall|i: int| match_at(rs.drop_last(), ks, i) implies i == j by {
                assert(rs.drop_last()[i] == rs[i]);
                assert(match_at(rs, ks, i));
            }
        }
        lemma_single_match_query(rs.drop_last(), ks, j);
        assert(crate::store::matching_ids(rs, ks) =~= seq![rs[j].id]);
    }
}

/// A query returning exactly one identifier names the only matching
/// record.
pub proof fn lemma_query_single_match(rs: Seq<EntityRecord>, ks: Seq<ComponentKind>)
    requires
        crate::store::matching_ids(rs, ks).len() == 1,
    ensures
        exists|j: int| single_match_at(rs, ks, j),
    decreases rs.len(),
{
    if rs.len() == 0 {
        assert(false);
    } else {
        let prefix = crate::store::matching_ids(rs.drop_last(), ks);
        if matches_all(rs.last(), ks) {
            assert(prefix.len() == 0);
            assert forall|i: int| 0 <= i < rs.len() - 1 implies !matches_all(rs[i], ks) by {
                if matches_all(rs[i], ks) {
                    assert(rs.drop_last()[i] == rs[i]);
                    crate::store::lemma_matching_contains(rs.drop_last(), ks, i);
                }
            }
            assert(single_match_at(rs, ks, rs.len() - 1));
        } else {
            assert(prefix.len() == 1);
            lemma_query_single_match(rs.drop_last(), ks);
            let j = choose|j: int| single_match_at(rs.drop_last(), ks, j);
            assert(match_at(rs.drop_last(), ks, j));
            assert(rs.drop_last()[j] == rs[j]);
            assert(single_match_at(rs, ks, j)) by {
                assert forall|i: int| match_at(rs, ks, i) implies i == j by {
                    if i < rs.len() - 1 {
                        assert(rs.drop_last()[i] == rs[i]);
                        assert(match_at(rs.drop_last(), ks, i));
                    }
                }
            }
        }
    }
}

/// The movement system's guard agrees with the store's query: a tick moves
/// the player exactly when the player query returns one identifier.
pub proof fn lemma_tick_guard_is_query(rs: Seq<EntityRecord>)
    ensures
        (crate::store::matching_ids(rs, player_query()).len() == 1) <==> (exists|j: int|
            single_match_at(rs, player_query(), j)),
{
    let pq = player_query();
    if crate::store::matching_ids(rs, pq).len() == 1 {
        lemma_query_single_match(rs, pq);
    }
    if exists|j: int| single_match_at(rs, pq, j) {
        let j = choose|j: int| single_match_at(rs, pq, j);
        lemma_single_match_query(rs, pq, j);
    }
}

/// Holding move-right for `n` consecutive ticks with no speed changes
/// advances the player's horizontal translation by exactly
/// `n * speed * dt` world units — `n * 4 * speed.units * dt.num` subunits —
/// and changes nothing else, as long as the final position stays in range;
/// the translation is monotonically increasing in `n`, as the formula
/// shows.
pub proof fn lemma_right_ticks(rs: Seq<EntityRecord>, cfg: Config, keys: KeyState, j: int, n: nat)
    requires
        dir_of(keys) == 1,
        single_match_at(rs, player_query(), j),
        -POS_LIMIT <= x_of(rs[j]),
        x_of(rs[j]) + n * (4 * speed_units_of(rs[j]) * cfg.dt.num) <= POS_LIMIT,
    ensures
        ticks_n(rs, cfg, keys, n) == rs.update(
            j,
            with_x(rs[j], x_of(rs[j]) + n * (4 * speed_units_of(rs[j]) * cfg.dt.num)),
        ),
    decreases n,
{
    let pq = player_query();
    let r = rs[j];
    let base = 4 * speed_units_of(r) * cfg.dt.num;
    let x0 = x_of(r);
    assert(has_kind_at(r, pq, 0));
    assert(has_kind_at(r, pq, 1));
    assert(r.speed is Some && r.transform is Some);
    assert(base >= 0 && n * base >= 0 && (n == 0 ==> n * base == 0) && (n >= 1 ==> (n - 1) * base
        <= n * base && (n - 1) * base + base == n * base)) by (nonlinear_arith)
        requires
            base == 4 * speed_units_of(r) * cfg.dt.num,
            speed_units_of(r) >= 0,
            cfg.dt.num >= 0,
            n >= 0,
    ;
    if n == 0 {
        assert(n * base == 0);
        assert(with_x(r, x0) =~= r);
        assert(rs.update(j, r) =~= rs);
        assert(ticks_n(rs, cfg, keys, n) == rs);
        assert(rs.update(j, with_x(r, x0 + n * base)) == rs);
    } else {
        lemma_right_ticks(rs, cfg, keys, j, (n - 1) as nat);
        let xp = x0 + (n - 1) * base;
        let rp = with_x(r, xp);
        let prev = rs.update(j, rp);
        assert(-POS_LIMIT <= xp <= POS_LIMIT);
        assert(x_of(rp) == xp);
        assert(rp.speed == r.speed && rp.alive == r.alive && rp.player == r.player
            && rp.transform is Some && rp.id == r.id);
        assert(matches_all(rp, pq)) by {
            assert(forall|i: int| 0 <= i < pq.len() ==> crate::store::has_kind(r, pq[i]));
            assert forall|i: int| 0 <= i < pq.len() implies crate::store::has_kind(rp, pq[i]) by {
                assert(crate::store::has_kind(r, pq[i]));
            }
        }
        assert(single_match_at(prev, pq, j)) by {
            assert forall|i: int| match_at(prev, pq, i) implies i == j by {
                if i != j {
                    assert(prev[i] == rs[i]);
                    assert(match_at(rs, pq, i));
                }
            }
        }
        let j0 = choose|i: int| single_match_at(prev, pq, i);
        assert(match_at(prev, pq, j0));
        assert(j0 == j);
        let spd = match prev[j].speed {
            Some(s) => s,
            None => Speed { units: 0 },
        };
        assert(spd.units as int == speed_units_of(r));
        assert(disp_of(cfg, spd, keys) == base);
        let nx = xp + base;
        assert(nx == x0 + n * base);
        assert(-POS_LIMIT <= nx <= POS_LIMIT);
        assert(moved_record(rp, base) == with_x(rp, nx));
        assert(with_x(rp, nx) =~= with_x(r, nx));
        assert(prev.update(j, with_x(r, nx)) =~= rs.update(j, with_x(r, nx)));
        assert(tick_records(prev, cfg, keys) == prev.update(j, moved_record(rp, base)));
        assert(ticks_n(rs, cfg, keys, n) == tick_records(prev, cfg, keys));
        assert(ticks_n(rs, cfg, keys, n) == rs.update(j, with_x(r, x0 + n * base)));
    }
}

/// Membership of one queried kind, spelled out so the movement system can
/// read single components off a matching record.
pub open spec fn has_kind_at(r: EntityRecord, ks: Seq<ComponentKind>, i: int) -> bool {
    0 <= i < ks.len() ==> crate::store::has_kind(r, ks[i])
}

/// Writes record `nr` at index `f`, keeping everything else of the store.
fn self_update(store: &mut Store, f: usize, nr: EntityRecord)
    requires
        f < old(store).records@.len(),
        nr.id == old(store).records@[f as int].id,
        old(store).wf(),
    ensures
        final(store).records@ == old(store).records@.update(f as int, nr),
        final(store).next_id == old(store).next_id,
        final(store).config == old(store).config,
        final(store).wf(),
{
    store.records[f] = nr;
}

} // verus!
