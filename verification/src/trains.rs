//! The train-layout generator: one blueprint per item, holding a rail
//! column, three fueled locomotives, eight filtered cargo wagons and a
//! load/unload schedule; many items become a book of such blueprints.
use vstd::prelude::*;
use vstd::string::StringExecFns;

use crate::bp::builder::{
    entry_views, item_map, key_index, pair_views, upsert, BlueprintBuilder, BookBuilder, Coord, Entity, Payload,
    ScheduleCondition, Stop, INVENTORY_SLOTS,
};
use crate::codec::Render;
use crate::jsontext::{push_sep_joined, sep_joined, string_views};

verus! {

pub open spec fn train_label(s: Seq<char>) -> Seq<char> {
    "[item="@ + s + "] train"@
}

pub open spec fn train_description(s: Seq<char>) -> Seq<char> {
    "Load and unload train that holds [item="@ + s + "] with filtered carriages"@
}

pub open spec fn load_station(s: Seq<char>) -> Seq<char> {
    "[L] [item="@ + s + "]"@
}

pub open spec fn unload_station(s: Seq<char>) -> Seq<char> {
    "[U] [item="@ + s + "]"@
}

pub open spec fn book_of_trains_description(names: Seq<Seq<char>>) -> Seq<char> {
    "Book that contains many trains: \n\n - "@ + sep_joined(names, "\n - "@) + "\n"@
}

/// Entity `i` of the layout is the `i`-th straight rail: at x = 1, one rail
/// every two tiles down the column from y = 1.
pub open spec fn rail_entity(e: Entity, i: int) -> bool {
    &&& e.entity_number == i + 1
    &&& e.name@ == "straight-rail"@
    &&& e.position.x.halves == 2
    &&& e.position.y.halves == 2 + 4 * i
    &&& e.payload is Plain
}

/// Entity `i` (39 <= i < 42) is a locomotive at x = 2, seven tiles apart
/// from y = 4, fueled with three nuclear fuel cells.
pub open spec fn engine_entity(e: Entity, i: int) -> bool {
    &&& e.entity_number == i + 1
    &&& e.name@ == "locomotive"@
    &&& e.position.x.halves == 4
    &&& e.position.y.halves == 8 + 14 * (i - 39)
    &&& e.payload matches Payload::Items { entries } && entry_views(entries@) == seq![
        ("nuclear-fuel"@, 3u64),
    ]
}

/// Entity `i` (42 <= i < 50) is a cargo wagon behind the locomotives, every
/// inventory slot filtered to the carried item.
pub open spec fn wagon_entity(e: Entity, i: int, s: Seq<char>) -> bool {
    &&& e.entity_number == i + 1
    &&& e.name@ == "cargo-wagon"@
    &&& e.position.x.halves == 4
    &&& e.position.y.halves == 8 + 14 * (i - 39)
    &&& e.payload matches Payload::Inventory { slots } && slots@.len() == INVENTORY_SLOTS && (
    forall|k: int|
        0 <= k < slots@.len() ==> (#[trigger] slots@[k]).index == k + 1 && slots@[k].name@ == s)
}

/// The two stops: load until full at the `[L]` station, then unload until
/// empty at the `[U]` station, both as OR wait-conditions.
pub open spec fn train_stops(stops: Seq<Stop>, s: Seq<char>) -> bool {
    &&& stops.len() == 2
    &&& stops[0].station@ == load_station(s)
    &&& stops[0].wait_conditions@.len() == 1
    &&& stops[0].wait_conditions@[0].compare_type is OR
    &&& stops[0].wait_conditions@[0].kind@ == "full"@
    &&& stops[1].station@ == unload_station(s)
    &&& stops[1].wait_conditions@.len() == 1
    &&& stops[1].wait_conditions@[0].compare_type is OR
    &&& stops[1].wait_conditions@[0].kind@ == "empty"@
}

/// The complete train blueprint for item `s`: 39 rails, 3 locomotives and 8
/// wagons in that order, two icons, and one schedule driving the last
/// locomotive (id 42).
pub open spec fn is_train_bp(bp: BlueprintBuilder, s: Seq<char>) -> bool {
    &&& bp.wf()
    &&& bp.label@ == train_label(s)
    &&& bp.description@ == train_description(s)
    &&& bp.icons@.len() == 2
    &&& bp.icons@[0].name@ == "locomotive"@
    &&& bp.icons@[1].name@ == s
    &&& bp.entities@.len() == 50
    &&& forall|i: int| 0 <= i < 39 ==> rail_entity(#[trigger] bp.entities@[i], i)
    &&& forall|i: int| 39 <= i < 42 ==> engine_entity(#[trigger] bp.entities@[i], i)
    &&& forall|i: int| 42 <= i < 50 ==> wagon_entity(#[trigger] bp.entities@[i], i, s)
    &&& bp.schedules@.len() == 1
    &&& bp.schedules@[0].locomotives@ == seq![42usize]
    &&& train_stops(bp.schedules@[0].schedule@, s)
}

/// A one-pair list builds a one-entry mapping.
proof fn lemma_single_item_map(p: (String, u64))
    ensures
        item_map(pair_views(seq![p])) == seq![(p.0@, p.1)],
{
    let pv = pair_views(seq![p]);
    let e = Seq::<(Seq<char>, u64)>::empty();
    assert(pv.len() == 1);
    assert(pv[0] == (p.0@, p.1));
    assert(pv.last() == (p.0@, p.1));
    assert(pv.drop_last() =~= e);
    assert(item_map(e) == e);
    assert(key_index(e, p.0@) == -1);
    assert(upsert(e, p.0@, p.1) =~= seq![(p.0@, p.1)]);
    assert(item_map(pv) == upsert(item_map(pv.drop_last()), pv.last().0, pv.last().1));
}

/// Adds one fueled locomotive at x = 2 and the given y half-tile.
fn add_engine(bp: &mut BlueprintBuilder, yh: i32) -> (id: usize)
    requires
        old(bp).entities@.len() < usize::MAX,
    ensures
        id == old(bp).entities@.len() + 1,
        final(bp).entities@.len() == old(bp).entities@.len() + 1,
        final(bp).entities@.drop_last() == old(bp).entities@,
        ({
            let e = final(bp).entities@.last();
            &&& e.entity_number == id
            &&& e.name@ == "locomotive"@
            &&& e.position.x.halves == 4
            &&& e.position.y.halves == yh
            &&& e.payload matches Payload::Items { entries } && entry_views(entries@) == seq![
                ("nuclear-fuel"@, 3u64),
            ]
        }),
        final(bp).icons == old(bp).icons,
        final(bp).schedules == old(bp).schedules,
        old(bp).same_heading(*final(bp)),
        old(bp).wf() ==> final(bp).wf(),
{
    let mut items: Vec<(String, u64)> = Vec::new();
    items.push(("nuclear-fuel".to_owned(), 3));
    proof {
        assert(items@ =~= seq![items@[0]]);
        lemma_single_item_map(items@[0]);
    }
    bp.add_with_items("locomotive".to_owned(), Coord::from_halves(4), Coord::from_halves(yh), items)
}

/// Builds the complete train blueprint for one item.
pub fn bp_for_item(s: String) -> (bp: BlueprintBuilder)
    ensures
        is_train_bp(bp, s@),
{
    let mut label = "[item=".to_owned();
    label.append(s.as_str());
    label.append("] train");
    let mut description = "Load and unload train that holds [item=".to_owned();
    description.append(s.as_str());
    description.append("] with filtered carriages");
    let mut bp = BlueprintBuilder::new(label.as_str(), description.as_str());
    bp.add_icon("locomotive".to_owned());
    bp.add_icon(s.clone());
    let mut n: i32 = 0;
    while n < 39
        invariant
            0 <= n <= 39,
            bp.wf(),
            bp.label@ == train_label(s@),
            bp.description@ == train_description(s@),
            bp.icons@.len() == 2,
            bp.icons@[0].name@ == "locomotive"@,
            bp.icons@[1].name@ == s@,
            bp.schedules@.len() == 0,
            bp.entities@.len() == n,
            forall|i: int| 0 <= i < n ==> rail_entity(#[trigger] bp.entities@[i], i),
        decreases 39 - n,
    {
        let ghost prev = bp;
        let _ = bp.add("straight-rail".to_owned(), Coord::from_halves(2), Coord::from_halves(
            2 + 4 * n,
        ));
        proof {
            assert forall|i: int| 0 <= i < n + 1 implies rail_entity(
                #[trigger] bp.entities@[i],
                i,
            ) by {
                if i < n {
                    assert(bp.entities@[i] == prev.entities@[i]);
                }
            }
        }
        n += 1;
    }
    let ghost r39 = bp;
    let _ = add_engine(&mut bp, 8);
    let ghost r40 = bp;
    let _ = add_engine(&mut bp, 22);
    let ghost r41 = bp;
    let loco = add_engine(&mut bp, 36);
    proof {
        assert(loco == 42);
        assert forall|i: int| 0 <= i < 39 implies rail_entity(#[trigger] bp.entities@[i], i) by {
            assert(r41.entities@[i] == r39.entities@[i]);
            assert(bp.entities@[i] == r41.entities@[i]);
        }
        assert forall|i: int| 39 <= i < 42 implies engine_entity(#[trigger] bp.entities@[i], i) by {
            if i == 39 {
                assert(bp.entities@[i] == r40.entities@.last());
            } else if i == 40 {
                assert(bp.entities@[i] == r41.entities@.last());
            } else {
                assert(bp.entities@[i] == bp.entities@.last());
            }
        }
    }
    let mut k: i32 = 0;
    while k < 8
        invariant
            0 <= k <= 8,
            bp.wf(),
            bp.label@ == train_label(s@),
            bp.description@ == train_description(s@),
            bp.icons@.len() == 2,
            bp.icons@[0].name@ == "locomotive"@,
            bp.icons@[1].name@ == s@,
            bp.schedules@.len() == 0,
            bp.entities@.len() == 42 + k,
            forall|i: int| 0 <= i < 39 ==> rail_entity(#[trigger] bp.entities@[i], i),
            forall|i: int| 39 <= i < 42 ==> engine_entity(#[trigger] bp.entities@[i], i),
            forall|i: int| 42 <= i < 42 + k ==> wagon_entity(#[trigger] bp.entities@[i], i, s@),
        decreases 8 - k,
    {
        let ghost prev = bp;
        let _ = bp.add_with_inventory(
            "cargo-wagon".to_owned(),
            Coord::from_halves(4),
            Coord::from_halves(50 + 14 * k),
            s.as_str(),
        );
        proof {
            assert forall|i: int| 0 <= i < 42 + k + 1 implies (0 <= i < 39 ==> rail_entity(
                #[trigger] bp.entities@[i],
                i,
            )) && (39 <= i < 42 ==> engine_entity(bp.entities@[i], i)) && (42 <= i < 42 + k + 1
                ==> wagon_entity(bp.entities@[i], i, s@)) by {
                if i < 42 + k {
                    assert(bp.entities@[i] == prev.entities@[i]);
                } else {
                    assert(bp.entities@[i] == bp.entities@.last());
                }
            }
        }
        k += 1;
    }
    let mut conds1: Vec<ScheduleCondition> = Vec::new();
    conds1.push(ScheduleCondition::or("full".to_owned()));
    let mut station1 = "[L] [item=".to_owned();
    station1.append(s.as_str());
    station1.append("]");
    let stop1 = Stop::new(station1, conds1);
    let mut conds2: Vec<ScheduleCondition> = Vec::new();
    conds2.push(ScheduleCondition::or("empty".to_owned()));
    let mut station2 = "[U] [item=".to_owned();
    station2.append(s.as_str());
    station2.append("]");
    let stop2 = Stop::new(station2, conds2);
    let mut stops: Vec<Stop> = Vec::new();
    stops.push(stop1);
    stops.push(stop2);
    let mut locos: Vec<usize> = Vec::new();
    locos.push(loco);
    let ghost before_schedule = bp;
    proof {
        assert(locos@ =~= seq![42usize]);
    }
    bp.add_schedule(locos, stops);
    proof {
        assert(bp.entities == before_schedule.entities);
        assert(bp.schedules@.len() == 1);
        assert(train_stops(bp.schedules@[0].schedule@, s@));
    }
    bp
}

/// The train book for a list of items: one train blueprint per item, in
/// order, under the book label and a description listing every item.
pub open spec fn is_train_book(bk: BookBuilder, items: Seq<String>) -> bool {
    &&& bk.wf()
    &&& bk.label@ == "Book of trains"@
    &&& bk.description@ == book_of_trains_description(string_views(items))
    &&& bk.icons@.len() == 0
    &&& bk.blueprints@.len() == items.len()
    &&& forall|i: int|
        0 <= i < items.len() ==> is_train_bp(#[trigger] bk.blueprints@[i], items[i]@)
}

/// Builds the book of trains, one blueprint per item.
pub fn train_book(items: &Vec<String>) -> (bk: BookBuilder)
    ensures
        is_train_book(bk, items@),
{
    let mut description = "Book that contains many trains: \n\n - ".to_owned();
    push_sep_joined(&mut description, items, "\n - ");
    description.append("\n");
    let mut bk = BookBuilder::new("Book of trains", description.as_str());
    let n = items.len();
    let mut i: usize = 0;
    while i < n
        invariant
            i <= n,
            n == items@.len(),
            bk.wf(),
            bk.label@ == "Book of trains"@,
            bk.description@ == book_of_trains_description(string_views(items@)),
            bk.icons@.len() == 0,
            bk.blueprints@.len() == i,
            forall|j: int| 0 <= j < i ==> is_train_bp(#[trigger] bk.blueprints@[j], items@[j]@),
        decreases n - i,
    {
        let ghost prev = bk;
        let bpi = bp_for_item(items[i].clone());
        bk.add_blueprint(bpi);
        proof {
            assert forall|j: int| 0 <= j < i + 1 implies is_train_bp(
                #[trigger] bk.blueprints@[j],
                items@[j]@,
            ) by {
                if j < i {
                    assert(bk.blueprints@[j] == prev.blueprints@[j]);
                } else {
                    assert(bk.blueprints@[j] == bk.blueprints@.last());
                }
            }
        }
        i += 1;
    }
    bk
}

/// The encoded output for a list of items: one item gives a single train
/// blueprint's string, several give the book's.
pub fn train_output(items: &Vec<String>) -> (r: String)
    requires
        items@.len() >= 1,
    ensures
        items@.len() == 1 ==> exists|bp: BlueprintBuilder|
            is_train_bp(bp, items@[0]@) && r@ == #[trigger] bp.rendered(),
        items@.len() > 1 ==> exists|bk: BookBuilder|
            is_train_book(bk, items@) && r@ == #[trigger] bk.rendered(),
{
    if items.len() == 1 {
        let bp = bp_for_item(items[0].clone());
        let out = bp.render();
        proof {
            assert(is_train_bp(bp, items@[0]@) && out@ == bp.rendered());
        }
        out
    } else {
        let bk = train_book(items);
        let out = bk.render();
        proof {
            assert(is_train_book(bk, items@) && out@ == bk.rendered());
        }
        out
    }
}

} // verus!
