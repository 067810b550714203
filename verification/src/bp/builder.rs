//! The entity-layout data model: positioned entity records with optional
//! payloads, display icons, train schedules, and the two builders that
//! accumulate them — one for a single layout, one for a collection.
//!
//! The central invariants: entity ids and icon indices are assigned as
//! `count + 1` at insertion, so they read 1, 2, 3, … in insertion order,
//! with no gaps and no reuse.
use vstd::prelude::*;

verus! {

/// A coordinate on the layout grid, counted in half-tiles, so that
/// positions such as 1.5 are exact values.
#[derive(Clone, Copy, Debug, PartialEq, Eq, Structural)]
pub struct Coord {
    pub halves: i32,
}

impl Coord {
    /// The coordinate at `n` whole tiles.
    pub fn from_int(n: i32) -> (c: Coord)
        requires
            -0x3fff_ffff <= n <= 0x3fff_ffff,
        ensures
            c.halves == 2 * n,
    {
        Coord { halves: 2 * n }
    }

    /// The coordinate at `n` half-tiles.
    pub fn from_halves(n: i32) -> (c: Coord)
        ensures
            c.halves == n,
    {
        Coord { halves: n }
    }
}

/// A position on the grid: two coordinates.
#[derive(Clone, Copy, Debug, PartialEq, Eq, Structural)]
pub struct Position {
    pub x: Coord,
    pub y: Coord,
}

/// One display marker: a catalog item name and its 1-based icon slot.
/// The signal kind is fixed to `item` in this system.
#[derive(Debug)]
pub struct Icon {
    pub name: String,
    pub index: usize,
}

/// One circuit-network signal filter: a catalog item, a signed count and a
/// 1-based slot.
#[derive(Debug)]
pub struct SignalFilter {
    pub name: String,
    pub count: i32,
    pub index: usize,
}

/// One item-count requirement: a catalog item name and how many of it.
#[derive(Debug)]
pub struct ItemCount {
    pub name: String,
    pub count: u64,
}

/// One inventory filter slot: a 1-based slot index and the item it admits.
#[derive(Debug)]
pub struct InventoryFilter {
    pub index: usize,
    pub name: String,
}

/// The optional payload of an entity record: exactly one of nothing,
/// item-count requirements, circuit-network signal filters, or a full
/// inventory filter set.
#[derive(Debug)]
pub enum Payload {
    Plain,
    Items { entries: Vec<ItemCount> },
    Signals { filters: Vec<SignalFilter> },
    Inventory { slots: Vec<InventoryFilter> },
}

/// One placed entity: a stable 1-based id, a catalog item name, a position,
/// and its payload.
#[derive(Debug)]
pub struct Entity {
    pub entity_number: usize,
    pub name: String,
    pub position: Position,
    pub payload: Payload,
}

/// The combinator joining a wait-condition to the previous one.
#[derive(Clone, Copy, Debug, PartialEq, Eq, Structural)]
pub enum Comparison {
    AND,
    OR,
}

/// One wait-condition of a schedule stop: a combinator and a condition kind
/// such as `full` or `empty`.
#[derive(Debug)]
pub struct ScheduleCondition {
    pub compare_type: Comparison,
    pub kind: String,
}

impl ScheduleCondition {
    pub fn and(t: String) -> (c: ScheduleCondition)
        ensures
            c == (ScheduleCondition { compare_type: Comparison::AND, kind: t }),
    {
        ScheduleCondition { compare_type: Comparison::AND, kind: t }
    }

    pub fn or(t: String) -> (c: ScheduleCondition)
        ensures
            c == (ScheduleCondition { compare_type: Comparison::OR, kind: t }),
    {
        ScheduleCondition { compare_type: Comparison::OR, kind: t }
    }
}

/// One stop of a schedule: a station name and its wait-conditions in order.
#[derive(Debug)]
pub struct Stop {
    pub station: String,
    pub wait_conditions: Vec<ScheduleCondition>,
}

impl Stop {
    pub fn new(station: String, wait_conditions: Vec<ScheduleCondition>) -> (s: Stop)
        ensures
            s == (Stop { station, wait_conditions }),
    {
        Stop { station, wait_conditions }
    }
}

/// One schedule: the ids of the locomotives it drives and its stops in order.
#[derive(Debug)]
pub struct Schedule {
    pub locomotives: Vec<usize>,
    pub schedule: Vec<Stop>,
}

/// The number of filter slots an inventory filter set fills: the inventory
/// size of the wagon kind these layouts target.
pub const INVENTORY_SLOTS: usize = 40;

/// The mutable aggregate for one layout ("blueprint"): ordered icons,
/// entities and schedules under a label and a description.
#[derive(Debug)]
pub struct BlueprintBuilder {
    pub icons: Vec<Icon>,
    pub entities: Vec<Entity>,
    pub schedules: Vec<Schedule>,
    pub label: String,
    pub description: String,
}

// ---------------------------------------------------------------------------
// Spec-level model of the item-count mapping
// ---------------------------------------------------------------------------
/// The view of item-count pairs as given by a caller.
pub open spec fn pair_views(s: Seq<(String, u64)>) -> Seq<(Seq<char>, u64)> {
    s.map_values(|p: (String, u64)| (p.0@, p.1))
}

/// The view of accumulated item-count entries.
pub open spec fn entry_views(s: Seq<ItemCount>) -> Seq<(Seq<char>, u64)> {
    s.map_values(|e: ItemCount| (e.name@, e.count))
}

/// The first position holding key `k`, or -1 where there is none.
pub open spec fn key_index(m: Seq<(Seq<char>, u64)>, k: Seq<char>) -> int
    decreases m.len(),
{
    if m.len() == 0 {
        -1
    } else if m[0].0 == k {
        0
    } else if key_index(m.drop_first(), k) < 0 {
        -1
    } else {
        key_index(m.drop_first(), k) + 1
    }
}

/// Mapping insertion: a present key is overwritten in place, a new key is
/// appended.
pub open spec fn upsert(m: Seq<(Seq<char>, u64)>, k: Seq<char>, v: u64) -> Seq<(Seq<char>, u64)> {
    if key_index(m, k) < 0 {
        m.push((k, v))
    } else {
        m.update(key_index(m, k), (k, v))
    }
}

/// The mapping an ordered pair list builds: duplicate keys overwrite, last
/// write wins, keys keep the order of their first occurrence.
pub open spec fn item_map(pairs: Seq<(Seq<char>, u64)>) -> Seq<(Seq<char>, u64)>
    decreases pairs.len(),
{
    if pairs.len() == 0 {
        Seq::<(Seq<char>, u64)>::empty()
    } else {
        upsert(item_map(pairs.drop_last()), pairs.last().0, pairs.last().1)
    }
}

/// `key_index` names the first position of `k`, and -1 means absence.
pub proof fn lemma_key_index(m: Seq<(Seq<char>, u64)>, k: Seq<char>)
    ensures
        key_index(m, k) >= 0 ==> 0 <= key_index(m, k) < m.len() && m[key_index(m, k)].0 == k
            && (forall|j: int| 0 <= j < key_index(m, k) ==> (#[trigger] m[j]).0 != k),
        key_index(m, k) < 0 ==> (forall|j: int| 0 <= j < m.len() ==> (#[trigger] m[j]).0 != k),
    decreases m.len(),
{
    if m.len() > 0 && m[0].0 != k {
        let mm = m.drop_first();
        lemma_key_index(mm, k);
        let ki = key_index(m, k);
        let ki2 = key_index(mm, k);
        if ki2 < 0 {
            assert forall|j: int| 0 <= j < m.len() implies (#[trigger] m[j]).0 != k by {
                if j > 0 {
                    assert(mm[j - 1] == m[j]);
                }
            }
        } else {
            assert(ki == ki2 + 1);
            assert(m[ki] == mm[ki2]);
            assert forall|j: int| 0 <= j < ki implies (#[trigger] m[j]).0 != k by {
                if j > 0 {
                    assert(mm[j - 1] == m[j]);
                    assert(mm[j - 1].0 != k);
                }
            }
        }
    }
}

impl BlueprintBuilder {
    /// Well-formedness: entity ids and icon indices are contiguous from 1 in
    /// insertion order.
    pub open spec fn wf(self) -> bool {
        &&& forall|i: int|
            0 <= i < self.entities@.len() ==> (#[trigger] self.entities@[i]).entity_number == i + 1
        &&& forall|i: int|
            0 <= i < self.icons@.len() ==> (#[trigger] self.icons@[i]).index == i + 1
    }

    /// The fields an add-operation leaves untouched besides the list it
    /// appends to.
    pub open spec fn same_heading(self, other: BlueprintBuilder) -> bool {
        &&& self.label == other.label
        &&& self.description == other.description
    }

    pub fn new(label: &str, description: &str) -> (b: BlueprintBuilder)
        ensures
            b.wf(),
            b.icons@ == Seq::<Icon>::empty(),
            b.entities@ == Seq::<Entity>::empty(),
            b.schedules@ == Seq::<Schedule>::empty(),
            b.label@ == label@,
            b.description@ == description@,
    {
        BlueprintBuilder {
            icons: Vec::new(),
            entities: Vec::new(),
            schedules: Vec::new(),
            label: label.to_owned(),
            description: description.to_owned(),
        }
    }

    /// Appends a display marker at the next 1-based icon slot.
    pub fn add_icon(&mut self, item: String)
        requires
            old(self).icons@.len() < usize::MAX,
        ensures
            final(self).icons@ == old(self).icons@.push(
                Icon { name: item, index: (old(self).icons@.len() + 1) as usize },
            ),
            final(self).entities == old(self).entities,
            final(self).schedules == old(self).schedules,
            old(self).same_heading(*final(self)),
            old(self).wf() ==> final(self).wf(),
    {
        let idx = self.icons.len() + 1;
        self.icons.push(Icon { name: item, index: idx });
        proof {
            if old(self).wf() {
                assert forall|i: int|
                    0 <= i < self.icons@.len() implies (#[trigger] self.icons@[i]).index == i
                    + 1 by {
                    if i < old(self).icons@.len() {
                        assert(self.icons@[i] == old(self).icons@[i]);
                    }
                }
            }
        }
    }

    /// The shared insertion step: appends an entity whose id is the entity
    /// count before the call plus one, and returns that id.
    fn add_impl(&mut self, item: String, x: Coord, y: Coord, payload: Payload) -> (id: usize)
        requires
            old(self).entities@.len() < usize::MAX,
        ensures
            id == old(self).entities@.len() + 1,
            final(self).entities@ == old(self).entities@.push(
                Entity {
                    entity_number: id,
                    name: item,
                    position: Position { x, y },
                    payload,
                },
            ),
            final(self).icons == old(self).icons,
            final(self).schedules == old(self).schedules,
            old(self).same_heading(*final(self)),
            old(self).wf() ==> final(self).wf(),
    {
        let num = self.entities.len() + 1;
        let next = Entity { entity_number: num, name: item, position: Position { x, y }, payload };
        self.entities.push(next);
        proof {
            if old(self).wf() {
                assert forall|i: int|
                    0 <= i < self.entities@.len() implies (#[trigger] self.entities@[i]).entity_number
                    == i + 1 by {
                    if i < old(self).entities@.len() {
                        assert(self.entities@[i] == old(self).entities@[i]);
                    }
                }
            }
        }
        num
    }

    /// Appends a plain entity (no payload) and returns its id.
    pub fn add(&mut self, item: String, x: Coord, y: Coord) -> (id: usize)
        requires
            old(self).entities@.len() < usize::MAX,
        ensures
            id == old(self).entities@.len() + 1,
            final(self).entities@ == old(self).entities@.push(
                Entity {
                    entity_number: id,
                    name: item,
                    position: Position { x, y },
                    payload: Payload::Plain,
                },
            ),
            final(self).icons == old(self).icons,
            final(self).schedules == old(self).schedules,
            old(self).same_heading(*final(self)),
            old(self).wf() ==> final(self).wf(),
    {
        self.add_impl(item, x, y, Payload::Plain)
    }

    /// Appends an entity carrying item-count requirements and returns its id.
    /// The pairs build a mapping: duplicate keys overwrite, last write wins.
    pub fn add_with_items(
        &mut self,
        item: String,
        x: Coord,
        y: Coord,
        items: Vec<(String, u64)>,
    ) -> (id: usize)
        requires
            old(self).entities@.len() < usize::MAX,
        ensures
            id == old(self).entities@.len() + 1,
            final(self).entities@.len() == old(self).entities@.len() + 1,
            final(self).entities@.drop_last() == old(self).entities@,
            ({
                let e = final(self).entities@.last();
                &&& e.entity_number == id
                &&& e.name == item
                &&& e.position == (Position { x, y })
                &&& e.payload matches Payload::Items { entries } && entry_views(entries@)
                    == item_map(pair_views(items@))
            }),
            final(self).icons == old(self).icons,
            final(self).schedules == old(self).schedules,
            old(self).same_heading(*final(self)),
            old(self).wf() ==> final(self).wf(),
    {
        let mut entries: Vec<ItemCount> = Vec::new();
        let n = items.len();
        let mut i: usize = 0;
        while i < n
            invariant
                i <= n,
                n == items@.len(),
                entry_views(entries@) == item_map(pair_views(items@.subrange(0, i as int))),
            decreases n - i,
        {
            let ghost pre_model = entry_views(entries@);
            let ghost key = items@[i as int].0@;
            let m = entries.len();
            let mut j: usize = 0;
            let mut found: bool = false;
            let mut pos: usize = 0;
            while j < m
                invariant
                    j <= m,
                    m == entries@.len(),
                    i < n,
                    n == items@.len(),
                    key == items@[i as int].0@,
                    found ==> j == m,
                    !found ==> forall|k: int|
                        0 <= k < j ==> (#[trigger] entries@[k]).name@ != key,
                    found ==> pos < m && entries@[pos as int].name@ == key && (forall|k: int|
                        0 <= k < pos ==> (#[trigger] entries@[k]).name@ != key),
                decreases m - j,
            {
                if entries[j].name == items[i].0 {
                    found = true;
                    pos = j;
                    j = m;
                } else {
                    j += 1;
                }
            }
            proof {
                lemma_key_index(pre_model, key);
                assert forall|k: int|
                    0 <= k < entries@.len() implies (#[trigger] pre_model[k]).0
                    == entries@[k].name@ by {}
                let ki = key_index(pre_model, key);
                if found {
                    assert(pre_model[pos as int].0 == key);
                    if ki < 0 {
                        assert(pre_model[pos as int].0 != key);
                    }
                    if 0 <= ki < pos as int {
                        assert(entries@[ki].name@ != key);
                        assert(pre_model[ki].0 == key);
                    }
                    if ki > pos as int {
                        assert(pre_model[pos as int].0 != key);
                    }
                    assert(ki == pos as int);
                } else {
                    if ki >= 0 {
                        assert(pre_model[ki].0 == key);
                        assert(entries@[ki].name@ != key);
                    }
                    assert(ki < 0);
                }
            }
            let name_i = items[i].0.clone();
            let cnt = items[i].1;
            let ghost before = entries@;
            if found {
                entries.remove(pos);
                entries.insert(pos, ItemCount { name: name_i, count: cnt });
                proof {
                    assert(entries@ =~= before.update(pos as int, entries@[pos as int]));
                }
            } else {
                entries.push(ItemCount { name: name_i, count: cnt });
            }
            proof {
                assert(entry_views(entries@) =~= upsert(pre_model, key, items@[i as int].1));
                let sub1 = items@.subrange(0, (i + 1) as int);
                assert(sub1.drop_last() =~= items@.subrange(0, i as int));
                assert(pair_views(sub1).drop_last() =~= pair_views(sub1.drop_last()));
                assert(pair_views(sub1).last() == (key, items@[i as int].1));
                assert(item_map(pair_views(sub1)) == upsert(
                    item_map(pair_views(items@.subrange(0, i as int))),
                    key,
                    items@[i as int].1,
                ));
            }
            i += 1;
        }
        proof {
            assert(items@.subrange(0, n as int) =~= items@);
        }
        self.add_impl(item, x, y, Payload::Items { entries })
    }

    /// Appends an entity carrying a full inventory filter set: exactly
    /// `INVENTORY_SLOTS` slots, indices 1 up to that count, every slot set to
    /// `storage`. Returns the entity's id.
    pub fn add_with_inventory(&mut self, item: String, x: Coord, y: Coord, storage: &str) -> (id:
        usize)
        requires
            old(self).entities@.len() < usize::MAX,
        ensures
            id == old(self).entities@.len() + 1,
            final(self).entities@.len() == old(self).entities@.len() + 1,
            final(self).entities@.drop_last() == old(self).entities@,
            ({
                let e = final(self).entities@.last();
                &&& e.entity_number == id
                &&& e.name == item
                &&& e.position == (Position { x, y })
                &&& e.payload matches Payload::Inventory { slots } && slots@.len()
                    == INVENTORY_SLOTS && (forall|i: int|
                    0 <= i < slots@.len() ==> (#[trigger] slots@[i]).index == i + 1
                        && slots@[i].name@ == storage@)
            }),
            final(self).icons == old(self).icons,
            final(self).schedules == old(self).schedules,
            old(self).same_heading(*final(self)),
            old(self).wf() ==> final(self).wf(),
    {
        let mut filters: Vec<InventoryFilter> = Vec::new();
        let mut i: usize = 0;
        while i < INVENTORY_SLOTS
            invariant
                i <= INVENTORY_SLOTS,
                filters@.len() == i,
                forall|k: int|
                    0 <= k < i ==> (#[trigger] filters@[k]).index == k + 1 && filters@[k].name@
                        == storage@,
            decreases INVENTORY_SLOTS - i,
        {
            filters.push(InventoryFilter { index: i + 1, name: storage.to_owned() });
            i += 1;
        }
        self.add_impl(item, x, y, Payload::Inventory { slots: filters })
    }

    /// Appends a constant combinator carrying one signal filter per input
    /// pair, slots 1, 2, 3, … in input order, signal kind fixed to `item`.
    /// Returns the entity's id.
    pub fn add_combinator(&mut self, x: Coord, y: Coord, signals: Vec<(String, i32)>) -> (id:
        usize)
        requires
            old(self).entities@.len() < usize::MAX,
        ensures
            id == old(self).entities@.len() + 1,
            final(self).entities@.len() == old(self).entities@.len() + 1,
            final(self).entities@.drop_last() == old(self).entities@,
            ({
                let e = final(self).entities@.last();
                &&& e.entity_number == id
                &&& e.name@ == "constant-combinator"@
                &&& e.position == (Position { x, y })
                &&& e.payload matches Payload::Signals { filters } && filters@.len()
                    == signals@.len() && (forall|i: int|
                    0 <= i < filters@.len() ==> (#[trigger] filters@[i]).index == i + 1
                        && filters@[i].name@ == signals@[i].0@ && filters@[i].count
                        == signals@[i].1)
            }),
            final(self).icons == old(self).icons,
            final(self).schedules == old(self).schedules,
            old(self).same_heading(*final(self)),
            old(self).wf() ==> final(self).wf(),
    {
        let mut filters: Vec<SignalFilter> = Vec::new();
        let n = signals.len();
        let mut i: usize = 0;
        while i < n
            invariant
                i <= n,
                n == signals@.len(),
                filters@.len() == i,
                forall|k: int|
                    0 <= k < i ==> (#[trigger] filters@[k]).index == k + 1 && filters@[k].name@
                        == signals@[k].0@ && filters@[k].count == signals@[k].1,
            decreases n - i,
        {
            let name_i = signals[i].0.clone();
            let cnt = signals[i].1;
            filters.push(SignalFilter { name: name_i, count: cnt, index: i + 1 });
            i += 1;
        }
        let name = "constant-combinator".to_owned();
        self.add_impl(name, x, y, Payload::Signals { filters })
    }

    /// Appends a schedule referencing the given locomotive ids and stops.
    /// Ids are not validated here: callers pass ids returned by the add
    /// operations.
    pub fn add_schedule(&mut self, trains: Vec<usize>, stops: Vec<Stop>)
        ensures
            final(self).schedules@ == old(self).schedules@.push(
                Schedule { locomotives: trains, schedule: stops },
            ),
            final(self).icons == old(self).icons,
            final(self).entities == old(self).entities,
            old(self).same_heading(*final(self)),
            old(self).wf() ==> final(self).wf(),
    {
        self.schedules.push(Schedule { locomotives: trains, schedule: stops });
    }
}

/// The mutable aggregate for a collection of layouts ("blueprint book"):
/// ordered icons and layouts under a label and a description.
#[derive(Debug)]
pub struct BookBuilder {
    pub icons: Vec<Icon>,
    pub blueprints: Vec<BlueprintBuilder>,
    pub label: String,
    pub description: String,
}

impl BookBuilder {
    /// Well-formedness: icon indices are contiguous from 1 in insertion
    /// order.
    pub open spec fn wf(self) -> bool {
        forall|i: int| 0 <= i < self.icons@.len() ==> (#[trigger] self.icons@[i]).index == i + 1
    }

    pub fn new(label: &str, description: &str) -> (b: BookBuilder)
        ensures
            b.wf(),
            b.icons@ == Seq::<Icon>::empty(),
            b.blueprints@ == Seq::<BlueprintBuilder>::empty(),
            b.label@ == label@,
            b.description@ == description@,
    {
        BookBuilder {
            icons: Vec::new(),
            blueprints: Vec::new(),
            label: label.to_owned(),
            description: description.to_owned(),
        }
    }

    /// Appends a display marker at the next 1-based icon slot.
    pub fn add_icon(&mut self, item: String)
        requires
            old(self).icons@.len() < usize::MAX,
        ensures
            final(self).icons@ == old(self).icons@.push(
                Icon { name: item, index: (old(self).icons@.len() + 1) as usize },
            ),
            final(self).blueprints == old(self).blueprints,
            final(self).label == old(self).label,
            final(self).description == old(self).description,
            old(self).wf() ==> final(self).wf(),
    {
        let idx = self.icons.len() + 1;
        self.icons.push(Icon { name: item, index: idx });
        proof {
            if old(self).wf() {
                assert forall|i: int|
                    0 <= i < self.icons@.len() implies (#[trigger] self.icons@[i]).index == i
                    + 1 by {
                    if i < old(self).icons@.len() {
                        assert(self.icons@[i] == old(self).icons@[i]);
                    }
                }
            }
        }
    }

    /// Moves a layout into the collection. It is wrapped under its own
    /// `blueprint` key when the collection is serialized.
    pub fn add_blueprint(&mut self, bp: BlueprintBuilder)
        ensures
            final(self).blueprints@ == old(self).blueprints@.push(bp),
            final(self).icons == old(self).icons,
            final(self).label == old(self).label,
            final(self).description == old(self).description,
            old(self).wf() ==> final(self).wf(),
    {
        self.blueprints.push(bp);
    }
}

/// Entity ids equal 1, 2, 3, … in insertion order, with no gaps or repeats:
/// every add operation appends one record numbered `count + 1`, so a
/// well-formed layout numbers its records by position.
pub proof fn lemma_entity_ids_contiguous(b: BlueprintBuilder)
    requires
        b.wf(),
    ensures
        forall|i: int|
            0 <= i < b.entities@.len() ==> (#[trigger] b.entities@[i]).entity_number == i + 1,
{
}

/// Icon indices equal 1, 2, 3, … in call order of `add_icon`.
pub proof fn lemma_icon_indices_contiguous(b: BlueprintBuilder)
    requires
        b.wf(),
    ensures
        forall|i: int| 0 <= i < b.icons@.len() ==> (#[trigger] b.icons@[i]).index == i + 1,
{
}

} // verus!
