//! Canonical JSON serialization of the layout model: one spec function per
//! record kind gives the exact text, and the emitters are proved to write it.
//!
//! The shape is the external document contract: exact field names and order,
//! combinators as lowercase strings, and optional payloads omitted entirely
//! when absent rather than written as null.
use vstd::prelude::*;
use vstd::string::StringExecFns;

use crate::bp::builder::{
    BlueprintBuilder, BookBuilder, Comparison, Entity, Icon, InventoryFilter, ItemCount, Payload,
    Position, Schedule, ScheduleCondition, SignalFilter, Stop,
};
use crate::jsontext::{
    dec_halves, dec_int, dec_nat, joined, json_string, lemma_joined_snoc, push_halves, push_i32,
    push_json_string, push_usize,
};

verus! {

// ---------------------------------------------------------------------------
// The canonical text, one spec function per record kind
// ---------------------------------------------------------------------------

/// A JSON array around already-joined element text.
pub open spec fn bracketed(s: Seq<char>) -> Seq<char> {
    "["@ + s + "]"@
}

pub open spec fn json_icon(ic: Icon) -> Seq<char> {
    "{\"signal\":{\"type\":\"item\",\"name\":"@ + json_string(ic.name@) + "},\"index\":"@
        + dec_nat(ic.index as nat) + "}"@
}

pub open spec fn icon_fn() -> spec_fn(Icon) -> Seq<char> {
    |ic: Icon| json_icon(ic)
}

pub open spec fn json_signal_filter(f: SignalFilter) -> Seq<char> {
    "{\"signal\":{\"type\":\"item\",\"name\":"@ + json_string(f.name@) + "},\"count\":"@
        + dec_int(f.count as int) + ",\"index\":"@ + dec_nat(f.index as nat) + "}"@
}

pub open spec fn signal_filter_fn() -> spec_fn(SignalFilter) -> Seq<char> {
    |f: SignalFilter| json_signal_filter(f)
}

pub open spec fn json_inventory_slot(f: InventoryFilter) -> Seq<char> {
    "{\"index\":"@ + dec_nat(f.index as nat) + ",\"name\":"@ + json_string(f.name@) + "}"@
}

pub open spec fn inventory_slot_fn() -> spec_fn(InventoryFilter) -> Seq<char> {
    |f: InventoryFilter| json_inventory_slot(f)
}

pub open spec fn json_item_entry(e: ItemCount) -> Seq<char> {
    json_string(e.name@) + ":"@ + dec_nat(e.count as nat)
}

pub open spec fn item_entry_fn() -> spec_fn(ItemCount) -> Seq<char> {
    |e: ItemCount| json_item_entry(e)
}

/// The payload's contribution to an entity object: nothing at all for a
/// plain record, otherwise a leading comma and this payload's one field.
pub open spec fn json_payload(p: Payload) -> Seq<char> {
    match p {
        Payload::Plain => Seq::<char>::empty(),
        Payload::Signals { filters } => ",\"control_behavior\":{\"filters\":["@ + joined(
            filters@,
            signal_filter_fn(),
        ) + "]}"@,
        Payload::Items { entries } => ",\"items\":{"@ + joined(entries@, item_entry_fn()) + "}"@,
        Payload::Inventory { slots } => ",\"inventory\":{\"filters\":["@ + joined(
            slots@,
            inventory_slot_fn(),
        ) + "]}"@,
    }
}

pub open spec fn json_position(p: Position) -> Seq<char> {
    "{\"x\":"@ + dec_halves(p.x.halves as int) + ",\"y\":"@ + dec_halves(p.y.halves as int) + "}"@
}

pub open spec fn json_entity(e: Entity) -> Seq<char> {
    "{\"entity_number\":"@ + dec_nat(e.entity_number as nat) + ",\"name\":"@ + json_string(e.name@)
        + ",\"position\":"@ + json_position(e.position) + json_payload(e.payload) + "}"@
}

pub open spec fn entity_fn() -> spec_fn(Entity) -> Seq<char> {
    |e: Entity| json_entity(e)
}

pub open spec fn json_comparison(c: Comparison) -> Seq<char> {
    match c {
        Comparison::AND => "\"and\""@,
        Comparison::OR => "\"or\""@,
    }
}

pub open spec fn json_condition(c: ScheduleCondition) -> Seq<char> {
    "{\"compare_type\":"@ + json_comparison(c.compare_type) + ",\"type\":"@ + json_string(c.kind@)
        + "}"@
}

pub open spec fn condition_fn() -> spec_fn(ScheduleCondition) -> Seq<char> {
    |c: ScheduleCondition| json_condition(c)
}

pub open spec fn json_stop(s: Stop) -> Seq<char> {
    "{\"station\":"@ + json_string(s.station@) + ",\"wait_conditions\":["@ + joined(
        s.wait_conditions@,
        condition_fn(),
    ) + "]}"@
}

pub open spec fn stop_fn() -> spec_fn(Stop) -> Seq<char> {
    |s: Stop| json_stop(s)
}

pub open spec fn loco_fn() -> spec_fn(usize) -> Seq<char> {
    |n: usize| dec_nat(n as nat)
}

pub open spec fn json_schedule(s: Schedule) -> Seq<char> {
    "{\"locomotives\":["@ + joined(s.locomotives@, loco_fn()) + "],\"schedule\":["@ + joined(
        s.schedule@,
        stop_fn(),
    ) + "]}"@
}

pub open spec fn schedule_fn() -> spec_fn(Schedule) -> Seq<char> {
    |s: Schedule| json_schedule(s)
}

/// The layout object: icons, entities and schedules in insertion order, the
/// fixed document kind, then label and description.
pub open spec fn json_blueprint_fields(bp: BlueprintBuilder) -> Seq<char> {
    "{\"icons\":"@ + bracketed(joined(bp.icons@, icon_fn())) + ",\"entities\":"@ + bracketed(
        joined(bp.entities@, entity_fn()),
    ) + ",\"schedules\":"@ + bracketed(joined(bp.schedules@, schedule_fn()))
        + ",\"item\":\"blueprint\",\"label\":"@ + json_string(bp.label@) + ",\"description\":"@
        + json_string(bp.description@) + "}"@
}

/// A layout under its single root key.
pub open spec fn json_wrapped_blueprint(bp: BlueprintBuilder) -> Seq<char> {
    "{\"blueprint\":"@ + json_blueprint_fields(bp) + "}"@
}

pub open spec fn wrapped_blueprint_fn() -> spec_fn(BlueprintBuilder) -> Seq<char> {
    |bp: BlueprintBuilder| json_wrapped_blueprint(bp)
}

/// The collection object: every member layout is itself wrapped under its
/// own `blueprint` key inside the `blueprints` list.
pub open spec fn json_book_fields(bk: BookBuilder) -> Seq<char> {
    "{\"icons\":"@ + bracketed(joined(bk.icons@, icon_fn())) + ",\"blueprints\":"@ + bracketed(
        joined(bk.blueprints@, wrapped_blueprint_fn()),
    ) + ",\"item\":\"blueprint-book\",\"label\":"@ + json_string(bk.label@)
        + ",\"description\":"@ + json_string(bk.description@) + "}"@
}

/// A collection under its single root key.
pub open spec fn json_wrapped_book(bk: BookBuilder) -> Seq<char> {
    "{\"blueprint_book\":"@ + json_book_fields(bk) + "}"@
}

// ---------------------------------------------------------------------------
// Emitters, each proved to write exactly the spec text
// ---------------------------------------------------------------------------

fn push_icon(out: &mut String, ic: &Icon)
    ensures
        final(out)@ == old(out)@ + json_icon(*ic),
{
    out.append("{\"signal\":{\"type\":\"item\",\"name\":");
    push_json_string(out, ic.name.as_str());
    out.append("},\"index\":");
    push_usize(out, ic.index);
    out.append("}");
    proof {
        assert(out@ =~= old(out)@ + json_icon(*ic));
    }
}

fn push_icons(out: &mut String, icons: &Vec<Icon>)
    ensures
        final(out)@ == old(out)@ + bracketed(joined(icons@, icon_fn())),
{
    let ghost pre = out@;
    out.append("[");
    let n = icons.len();
    let mut i: usize = 0;
    while i < n
        invariant
            i <= n,
            n == icons@.len(),
            out@ == pre + "["@ + joined(icons@.subrange(0, i as int), icon_fn()),
        decreases n - i,
    {
        if i > 0 {
            out.append(",");
        }
        push_icon(out, &icons[i]);
        proof {
            let sub = icons@.subrange(0, i as int);
            lemma_joined_snoc(sub, icons@[i as int], icon_fn());
            assert(icons@.subrange(0, (i + 1) as int) =~= sub.push(icons@[i as int]));
            assert(out@ =~= pre + "["@ + joined(icons@.subrange(0, (i + 1) as int), icon_fn()));
        }
        i += 1;
    }
    out.append("]");
    proof {
        assert(icons@.subrange(0, n as int) =~= icons@);
        assert(out@ =~= pre + bracketed(joined(icons@, icon_fn())));
    }
}

fn push_signal_filters(out: &mut String, filters: &Vec<SignalFilter>)
    ensures
        final(out)@ == old(out)@ + joined(filters@, signal_filter_fn()),
{
    let ghost pre = out@;
    let n = filters.len();
    let mut i: usize = 0;
    while i < n
        invariant
            i <= n,
            n == filters@.len(),
            out@ == pre + joined(filters@.subrange(0, i as int), signal_filter_fn()),
        decreases n - i,
    {
        if i > 0 {
            out.append(",");
        }
        let f = &filters[i];
        out.append("{\"signal\":{\"type\":\"item\",\"name\":");
        push_json_string(out, f.name.as_str());
        out.append("},\"count\":");
        push_i32(out, f.count);
        out.append(",\"index\":");
        push_usize(out, f.index);
        out.append("}");
        proof {
            let sub = filters@.subrange(0, i as int);
            lemma_joined_snoc(sub, filters@[i as int], signal_filter_fn());
            assert(filters@.subrange(0, (i + 1) as int) =~= sub.push(filters@[i as int]));
            assert(out@ =~= pre + joined(
                filters@.subrange(0, (i + 1) as int),
                signal_filter_fn(),
            ));
        }
        i += 1;
    }
    proof {
        assert(filters@.subrange(0, n as int) =~= filters@);
    }
}

fn push_inventory_slots(out: &mut String, slots: &Vec<InventoryFilter>)
    ensures
        final(out)@ == old(out)@ + joined(slots@, inventory_slot_fn()),
{
    let ghost pre = out@;
    let n = slots.len();
    let mut i: usize = 0;
    while i < n
        invariant
            i <= n,
            n == slots@.len(),
            out@ == pre + joined(slots@.subrange(0, i as int), inventory_slot_fn()),
        decreases n - i,
    {
        if i > 0 {
            out.append(",");
        }
        let f = &slots[i];
        out.append("{\"index\":");
        push_usize(out, f.index);
        out.append(",\"name\":");
        push_json_string(out, f.name.as_str());
        out.append("}");
        proof {
            let sub = slots@.subrange(0, i as int);
            lemma_joined_snoc(sub, slots@[i as int], inventory_slot_fn());
            assert(slots@.subrange(0, (i + 1) as int) =~= sub.push(slots@[i as int]));
            assert(out@ =~= pre + joined(slots@.subrange(0, (i + 1) as int), inventory_slot_fn()));
        }
        i += 1;
    }
    proof {
        assert(slots@.subrange(0, n as int) =~= slots@);
    }
}

fn push_item_entries(out: &mut String, entries: &Vec<ItemCount>)
    ensures
        final(out)@ == old(out)@ + joined(entries@, item_entry_fn()),
{
    let ghost pre = out@;
    let n = entries.len();
    let mut i: usize = 0;
    while i < n
        invariant
            i <= n,
            n == entries@.len(),
            out@ == pre + joined(entries@.subrange(0, i as int), item_entry_fn()),
        decreases n - i,
    {
        if i > 0 {
            out.append(",");
        }
        let e = &entries[i];
        push_json_string(out, e.name.as_str());
        out.append(":");
        let c = e.count;
        crate::jsontext::push_u64(out, c);
        proof {
            let sub = entries@.subrange(0, i as int);
            lemma_joined_snoc(sub, entries@[i as int], item_entry_fn());
            assert(entries@.subrange(0, (i + 1) as int) =~= sub.push(entries@[i as int]));
            assert(out@ =~= pre + joined(entries@.subrange(0, (i + 1) as int), item_entry_fn()));
        }
        i += 1;
    }
    proof {
        assert(entries@.subrange(0, n as int) =~= entries@);
    }
}

fn push_payload(out: &mut String, p: &Payload)
    ensures
        final(out)@ == old(out)@ + json_payload(*p),
{
    match p {
        Payload::Plain => {
            proof {
                assert(out@ =~= old(out)@ + json_payload(*p));
            }
        },
        Payload::Signals { filters } => {
            out.append(",\"control_behavior\":{\"filters\":[");
            push_signal_filters(out, filters);
            out.append("]}");
            proof {
                assert(out@ =~= old(out)@ + json_payload(*p));
            }
        },
        Payload::Items { entries } => {
            out.append(",\"items\":{");
            push_item_entries(out, entries);
            out.append("}");
            proof {
                assert(out@ =~= old(out)@ + json_payload(*p));
            }
        },
        Payload::Inventory { slots } => {
            out.append(",\"inventory\":{\"filters\":[");
            push_inventory_slots(out, slots);
            out.append("]}");
            proof {
                assert(out@ =~= old(out)@ + json_payload(*p));
            }
        },
    }
}

fn push_position(out: &mut String, p: &Position)
    ensures
        final(out)@ == old(out)@ + json_position(*p),
{
    out.append("{\"x\":");
    push_halves(out, p.x.halves);
    out.append(",\"y\":");
    push_halves(out, p.y.halves);
    out.append("}");
    proof {
        assert(out@ =~= old(out)@ + json_position(*p));
    }
}

fn push_entity(out: &mut String, e: &Entity)
    ensures
        final(out)@ == old(out)@ + json_entity(*e),
{
    out.append("{\"entity_number\":");
    push_usize(out, e.entity_number);
    out.append(",\"name\":");
    push_json_string(out, e.name.as_str());
    out.append(",\"position\":");
    push_position(out, &e.position);
    push_payload(out, &e.payload);
    out.append("}");
    proof {
        assert(out@ =~= old(out)@ + json_entity(*e));
    }
}

fn push_entities(out: &mut String, entities: &Vec<Entity>)
    ensures
        final(out)@ == old(out)@ + bracketed(joined(entities@, entity_fn())),
{
    let ghost pre = out@;
    out.append("[");
    let n = entities.len();
    let mut i: usize = 0;
    while i < n
        invariant
            i <= n,
            n == entities@.len(),
            out@ == pre + "["@ + joined(entities@.subrange(0, i as int), entity_fn()),
        decreases n - i,
    {
        if i > 0 {
            out.append(",");
        }
        push_entity(out, &entities[i]);
        proof {
            let sub = entities@.subrange(0, i as int);
            lemma_joined_snoc(sub, entities@[i as int], entity_fn());
            assert(entities@.subrange(0, (i + 1) as int) =~= sub.push(entities@[i as int]));
            assert(out@ =~= pre + "["@ + joined(
                entities@.subrange(0, (i + 1) as int),
                entity_fn(),
            ));
        }
        i += 1;
    }
    out.append("]");
    proof {
        assert(entities@.subrange(0, n as int) =~= entities@);
        assert(out@ =~= pre + bracketed(joined(entities@, entity_fn())));
    }
}

fn push_conditions(out: &mut String, conds: &Vec<ScheduleCondition>)
    ensures
        final(out)@ == old(out)@ + joined(conds@, condition_fn()),
{
    let ghost pre = out@;
    let n = conds.len();
    let mut i: usize = 0;
    while i < n
        invariant
            i <= n,
            n == conds@.len(),
            out@ == pre + joined(conds@.subrange(0, i as int), condition_fn()),
        decreases n - i,
    {
        if i > 0 {
            out.append(",");
        }
        let c = &conds[i];
        out.append("{\"compare_type\":");
        match c.compare_type {
            Comparison::AND => out.append("\"and\""),
            Comparison::OR => out.append("\"or\""),
        }
        out.append(",\"type\":");
        push_json_string(out, c.kind.as_str());
        out.append("}");
        proof {
            let sub = conds@.subrange(0, i as int);
            lemma_joined_snoc(sub, conds@[i as int], condition_fn());
            assert(conds@.subrange(0, (i + 1) as int) =~= sub.push(conds@[i as int]));
            assert(out@ =~= pre + joined(conds@.subrange(0, (i + 1) as int), condition_fn()));
        }
        i += 1;
    }
    proof {
        assert(conds@.subrange(0, n as int) =~= conds@);
    }
}

fn push_stops(out: &mut String, stops: &Vec<Stop>)
    ensures
        final(out)@ == old(out)@ + joined(stops@, stop_fn()),
{
    let ghost pre = out@;
    let n = stops.len();
    let mut i: usize = 0;
    while i < n
        invariant
            i <= n,
            n == stops@.len(),
            out@ == pre + joined(stops@.subrange(0, i as int), stop_fn()),
        decreases n - i,
    {
        if i > 0 {
            out.append(",");
        }
        let s = &stops[i];
        out.append("{\"station\":");
        push_json_string(out, s.station.as_str());
        out.append(",\"wait_conditions\":[");
        push_conditions(out, &s.wait_conditions);
        out.append("]}");
        proof {
            let sub = stops@.subrange(0, i as int);
            lemma_joined_snoc(sub, stops@[i as int], stop_fn());
            assert(stops@.subrange(0, (i + 1) as int) =~= sub.push(stops@[i as int]));
            assert(out@ =~= pre + joined(stops@.subrange(0, (i + 1) as int), stop_fn()));
        }
        i += 1;
    }
    proof {
        assert(stops@.subrange(0, n as int) =~= stops@);
    }
}

fn push_locomotives(out: &mut String, locos: &Vec<usize>)
    ensures
        final(out)@ == old(out)@ + joined(locos@, loco_fn()),
{
    let ghost pre = out@;
    let n = locos.len();
    let mut i: usize = 0;
    while i < n
        invariant
            i <= n,
            n == locos@.len(),
            out@ == pre + joined(locos@.subrange(0, i as int), loco_fn()),
        decreases n - i,
    {
        if i > 0 {
            out.append(",");
        }
        push_usize(out, locos[i]);
        proof {
            let sub = locos@.subrange(0, i as int);
            lemma_joined_snoc(sub, locos@[i as int], loco_fn());
            assert(locos@.subrange(0, (i + 1) as int) =~= sub.push(locos@[i as int]));
            assert(out@ =~= pre + joined(locos@.subrange(0, (i + 1) as int), loco_fn()));
        }
        i += 1;
    }
    proof {
        assert(locos@.subrange(0, n as int) =~= locos@);
    }
}

fn push_schedules(out: &mut String, schedules: &Vec<Schedule>)
    ensures
        final(out)@ == old(out)@ + bracketed(joined(schedules@, schedule_fn())),
{
    let ghost pre = out@;
    out.append("[");
    let n = schedules.len();
    let mut i: usize = 0;
    while i < n
        invariant
            i <= n,
            n == schedules@.len(),
            out@ == pre + "["@ + joined(schedules@.subrange(0, i as int), schedule_fn()),
        decreases n - i,
    {
        if i > 0 {
            out.append(",");
        }
        let s = &schedules[i];
        out.append("{\"locomotives\":[");
        push_locomotives(out, &s.locomotives);
        out.append("],\"schedule\":[");
        push_stops(out, &s.schedule);
        out.append("]}");
        proof {
            let sub = schedules@.subrange(0, i as int);
            lemma_joined_snoc(sub, schedules@[i as int], schedule_fn());
            assert(schedules@.subrange(0, (i + 1) as int) =~= sub.push(schedules@[i as int]));
            assert(out@ =~= pre + "["@ + joined(
                schedules@.subrange(0, (i + 1) as int),
                schedule_fn(),
            ));
        }
        i += 1;
    }
    out.append("]");
    proof {
        assert(schedules@.subrange(0, n as int) =~= schedules@);
        assert(out@ =~= pre + bracketed(joined(schedules@, schedule_fn())));
    }
}

/// Writes the layout object's fields, exactly `json_blueprint_fields`.
pub fn push_blueprint_fields(out: &mut String, bp: &BlueprintBuilder)
    ensures
        final(out)@ == old(out)@ + json_blueprint_fields(*bp),
{
    out.append("{\"icons\":");
    push_icons(out, &bp.icons);
    out.append(",\"entities\":");
    push_entities(out, &bp.entities);
    out.append(",\"schedules\":");
    push_schedules(out, &bp.schedules);
    out.append(",\"item\":\"blueprint\",\"label\":");
    push_json_string(out, bp.label.as_str());
    out.append(",\"description\":");
    push_json_string(out, bp.description.as_str());
    out.append("}");
    proof {
        assert(out@ =~= old(out)@ + json_blueprint_fields(*bp));
    }
}

/// Writes one layout wrapped under its `blueprint` root key.
pub fn push_wrapped_blueprint(out: &mut String, bp: &BlueprintBuilder)
    ensures
        final(out)@ == old(out)@ + json_wrapped_blueprint(*bp),
{
    out.append("{\"blueprint\":");
    push_blueprint_fields(out, bp);
    out.append("}");
    proof {
        assert(out@ =~= old(out)@ + json_wrapped_blueprint(*bp));
    }
}

#[verifier::rlimit(50)]
fn push_wrapped_blueprints(out: &mut String, bps: &Vec<BlueprintBuilder>)
    ensures
        final(out)@ == old(out)@ + bracketed(joined(bps@, wrapped_blueprint_fn())),
{
    let ghost pre = out@;
    out.append("[");
    let n = bps.len();
    let mut i: usize = 0;
    while i < n
        invariant
            i <= n,
            n == bps@.len(),
            out@ == pre + "["@ + joined(bps@.subrange(0, i as int), wrapped_blueprint_fn()),
        decreases n - i,
    {
        if i > 0 {
            out.append(",");
        }
        push_wrapped_blueprint(out, &bps[i]);
        proof {
            let sub = bps@.subrange(0, i as int);
            lemma_joined_snoc(sub, bps@[i as int], wrapped_blueprint_fn());
            assert(bps@.subrange(0, (i + 1) as int) =~= sub.push(bps@[i as int]));
            assert(out@ =~= pre + "["@ + joined(
                bps@.subrange(0, (i + 1) as int),
                wrapped_blueprint_fn(),
            ));
        }
        i += 1;
    }
    out.append("]");
    proof {
        assert(bps@.subrange(0, n as int) =~= bps@);
        assert(out@ =~= pre + bracketed(joined(bps@, wrapped_blueprint_fn())));
    }
}

/// Writes the collection object's fields, exactly `json_book_fields`.
pub fn push_book_fields(out: &mut String, bk: &BookBuilder)
    ensures
        final(out)@ == old(out)@ + json_book_fields(*bk),
{
    out.append("{\"icons\":");
    push_icons(out, &bk.icons);
    out.append(",\"blueprints\":");
    push_wrapped_blueprints(out, &bk.blueprints);
    out.append(",\"item\":\"blueprint-book\",\"label\":");
    push_json_string(out, bk.label.as_str());
    out.append(",\"description\":");
    push_json_string(out, bk.description.as_str());
    out.append("}");
    proof {
        assert(out@ =~= old(out)@ + json_book_fields(*bk));
    }
}

/// Writes one collection wrapped under its `blueprint_book` root key.
pub fn push_wrapped_book(out: &mut String, bk: &BookBuilder)
    ensures
        final(out)@ == old(out)@ + json_wrapped_book(*bk),
{
    out.append("{\"blueprint_book\":");
    push_book_fields(out, bk);
    out.append("}");
    proof {
        assert(out@ =~= old(out)@ + json_wrapped_book(*bk));
    }
}

// ---------------------------------------------------------------------------
// Stated properties of the serialized form
// ---------------------------------------------------------------------------

/// Omission invariant: an entity with no payload serializes with none of the
/// `control_behavior`, `items`, `inventory` keys — its object holds exactly
/// the id, the name and the position.
pub proof fn lemma_plain_entity_omits_payload(e: Entity)
    requires
        e.payload is Plain,
    ensures
        json_entity(e) == "{\"entity_number\":"@ + dec_nat(e.entity_number as nat) + ",\"name\":"@
            + json_string(e.name@) + ",\"position\":"@ + json_position(e.position) + "}"@,
{
    assert(json_payload(e.payload) =~= Seq::<char>::empty());
    assert(json_entity(e) =~= "{\"entity_number\":"@ + dec_nat(e.entity_number as nat)
        + ",\"name\":"@ + json_string(e.name@) + ",\"position\":"@ + json_position(e.position)
        + "}"@);
}

/// Nested wrapping: a collection of two layouts serializes its `blueprints`
/// list as exactly the two layouts, each wrapped as its own single-key
/// `blueprint` object, in order.
pub proof fn lemma_nested_wrapping(bk: BookBuilder)
    requires
        bk.blueprints@.len() == 2,
    ensures
        json_book_fields(bk) == "{\"icons\":"@ + bracketed(joined(bk.icons@, icon_fn()))
            + ",\"blueprints\":"@ + bracketed(
            json_wrapped_blueprint(bk.blueprints@[0]) + ","@ + json_wrapped_blueprint(
                bk.blueprints@[1],
            ),
        ) + ",\"item\":\"blueprint-book\",\"label\":"@ + json_string(bk.label@)
            + ",\"description\":"@ + json_string(bk.description@) + "}"@,
{
    let s = bk.blueprints@;
    assert(s.drop_last() =~= seq![s[0]]);
    assert(joined(s.drop_last(), wrapped_blueprint_fn()) == json_wrapped_blueprint(s[0]));
    assert(joined(s, wrapped_blueprint_fn()) == json_wrapped_blueprint(s[0]) + ","@
        + json_wrapped_blueprint(s[1]));
}

} // verus!
