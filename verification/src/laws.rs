//! What holds of every conversion, stated over the mathematical content of
//! the records and proved from the definitions.

use vstd::prelude::*;
use crate::convert::{assemble, chart_of, entries_of, entry_of, RowError};
use crate::date::Date;
use crate::item::{item_of, workdays_of, ItemModel, SECONDS_PER_WORKDAY};
use crate::record::{decode_row, Column, RecordModel};
use crate::registry::{color_at, palette, RegistryModel, PALETTE_LEN};

verus! {

/// The item that the record at `k` gets: the one that the assembler makes
/// of it after the records before it.
pub open spec fn placed(entries: Seq<(RecordModel, Date)>, colored: bool, k: int) -> ItemModel {
    assemble(entries.take(k), colored).item_for(entries[k].0, entries[k].1)
}

/// The items of all records, in the order of the records.
pub open spec fn placed_items(entries: Seq<(RecordModel, Date)>, colored: bool) -> Seq<ItemModel> {
    Seq::new(entries.len(), |k: int| placed(entries, colored, k))
}

/// The test for an item to lie on the resource at `r`.
pub open spec fn on_lane(r: int) -> spec_fn(ItemModel) -> bool {
    |item: ItemModel| item.resource_index == r
}

/// Whether a record before `k` has the assignee of the record at `k`.
pub open spec fn seen_before(entries: Seq<(RecordModel, Date)>, k: int) -> bool {
    exists|j: int| 0 <= j < k && #[trigger] entries[j].0.assignee == entries[k].0.assignee
}

/// Resolving a title keeps a registry well formed, puts the title at the
/// place that was named for it, and moves no other title.
pub proof fn lemma_resolved(registry: RegistryModel, title: Seq<char>)
    requires
        registry.wf(),
    ensures
        registry.resolved(title).wf(),
        registry.resolved(title).knows(title),
        0 <= registry.place_of(title) < registry.resolved(title).titles.len(),
        registry.resolved(title).titles[registry.place_of(title)] == title,
        registry.resolved(title).place_of(title) == registry.place_of(title),
        registry.titles.len() <= registry.resolved(title).titles.len() <= registry.titles.len() + 1,
        forall|i: int|
            0 <= i < registry.titles.len() ==> #[trigger] registry.resolved(title).titles[i]
                == registry.titles[i],
        forall|other: Seq<char>|
            registry.knows(other) ==> #[trigger] registry.resolved(title).knows(other)
                && registry.resolved(title).place_of(other) == registry.place_of(other),
        forall|other: Seq<char>| #[trigger]
            registry.resolved(title).knows(other) ==> registry.knows(other) || other == title,
{
    let after = registry.resolved(title);
    if registry.knows(title) {
        let at = registry.titles.index_of(title);
        assert(registry.titles[at] == title);
    } else {
        let n = registry.titles.len() as int;
        assert(after.titles[n] == title);
        assert(after.titles.contains(title));
        assert(after.titles.index_of(title) == n) by {
            let at = after.titles.index_of(title);
            if at < n {
                assert(registry.titles[at] == title);
            }
        }
    }
    assert forall|other: Seq<char>| registry.knows(other) implies #[trigger] after.knows(other)
        && after.place_of(other) == registry.place_of(other) by {
        let at = registry.titles.index_of(other);
        assert(registry.titles[at] == other);
        assert(after.titles[at] == other);
        let then = after.titles.index_of(other);
        assert(after.titles[then] == other);
    }
    assert forall|other: Seq<char>| #[trigger] after.knows(other) implies registry.knows(other)
        || other == title by {
        let at = after.titles.index_of(other);
        assert(after.titles[at] == other);
        if at < registry.titles.len() {
            assert(registry.titles[at] == other);
        }
    }
}

/// The item of a record does not depend on the records after it.
pub proof fn lemma_placed_in_prefix(entries: Seq<(RecordModel, Date)>, colored: bool, n: int, k: int)
    requires
        0 <= k < n <= entries.len(),
    ensures
        placed(entries.take(n), colored, k) == placed(entries, colored, k),
{
    assert(entries.take(n).take(k) =~= entries.take(k));
}

/// What an assembly looks like after any run of records: it is well formed,
/// every record's item lies on the resource that bears the record's
/// assignee, each lane holds the items of its resource in the order of the
/// records, and the registered titles are the assignees seen.
pub proof fn lemma_assembly(entries: Seq<(RecordModel, Date)>, colored: bool)
    ensures
        assemble(entries, colored).wf(),
        assemble(entries, colored).registry.colored == colored,
        forall|k: int|
            0 <= k < entries.len() ==> 0 <= (#[trigger] placed(entries, colored, k)).resource_index
                < assemble(entries, colored).lanes.len(),
        forall|k: int|
            0 <= k < entries.len() ==> assemble(entries, colored).registry.titles[(#[trigger] placed(
                entries,
                colored,
                k,
            )).resource_index] == entries[k].0.assignee,
        forall|r: int|
            0 <= r < assemble(entries, colored).lanes.len() ==> #[trigger] assemble(
                entries,
                colored,
            ).lanes[r] == placed_items(entries, colored).filter(on_lane(r)),
        forall|title: Seq<char>| #[trigger]
            assemble(entries, colored).registry.knows(title) <==> exists|k: int|
                0 <= k < entries.len() && #[trigger] entries[k].0.assignee == title,
    decreases entries.len(),
{
    reveal(Seq::filter);
    let after = assemble(entries, colored);
    if entries.len() == 0 {
        assert forall|title: Seq<char>| !(#[trigger] after.registry.knows(title)) by {
            if after.registry.knows(title) {
                let at = after.registry.titles.index_of(title);
                assert(after.registry.titles[at] == title);
            }
        }
    } else {
        let n = entries.len() - 1;
        let earlier = entries.drop_last();
        let before = assemble(earlier, colored);
        let record = entries.last().0;
        let item = before.item_for(record, entries.last().1);
        lemma_assembly(earlier, colored);
        lemma_resolved(before.registry, record.assignee);
        assert(entries.take(n) =~= earlier);
        assert(placed(entries, colored, n) == item);
        assert forall|k: int| 0 <= k < n implies placed(entries, colored, k) == placed(
            earlier,
            colored,
            k,
        ) by {
            lemma_placed_in_prefix(entries, colored, n, k);
        }
        let items = placed_items(entries, colored);
        assert(items.drop_last() =~= placed_items(earlier, colored));
        assert(items.last() == item);
        assert forall|r: int| 0 <= r < after.lanes.len() implies #[trigger] after.lanes[r]
            == items.filter(on_lane(r)) by {
            let kept = placed_items(earlier, colored).filter(on_lane(r));
            if r < before.lanes.len() {
                assert(before.lanes[r] == kept);
            } else {
                if kept.len() > 0 {
                    placed_items(earlier, colored).lemma_filter_pred(on_lane(r), 0);
                    placed_items(earlier, colored).lemma_filter_contains_rev(on_lane(r), kept[0]);
                    let k = placed_items(earlier, colored).index_of(kept[0]);
                    assert(placed_items(earlier, colored)[k] == placed(earlier, colored, k));
                }
                assert(kept =~= Seq::empty());
                assert(after.lanes[r] =~= seq![item]);
            }
        }
        assert forall|title: Seq<char>| #[trigger]
            after.registry.knows(title) <==> exists|k: int|
                0 <= k < entries.len() && #[trigger] entries[k].0.assignee == title by {
            if after.registry.knows(title) {
                if before.registry.knows(title) {
                    let k = choose|k: int| 0 <= k < earlier.len() && #[trigger] earlier[k].0.assignee == title;
                    assert(entries[k].0.assignee == title);
                } else {
                    assert(entries[n].0.assignee == title);
                }
            }
            if exists|k: int| 0 <= k < entries.len() && #[trigger] entries[k].0.assignee == title {
                let k = choose|k: int| 0 <= k < entries.len() && #[trigger] entries[k].0.assignee == title;
                if k < n {
                    assert(earlier[k].0.assignee == title);
                }
            }
        }
    }
}

/// A row whose issue key is empty contributes nothing: without it the
/// conversion succeeds on the same tables and gives the same records, hence
/// the same resources and items.
pub proof fn law_empty_key_row_is_passed_over(
    roles: Seq<Option<Column>>,
    rows: Seq<Option<Seq<Seq<char>>>>,
    format: Seq<char>,
    colored: bool,
    i: int,
)
    requires
        0 <= i < rows.len(),
        rows[i] is Some,
        decode_row(roles, rows[i]->0) is Ok,
        decode_row(roles, rows[i]->0)->Ok_0.key.len() == 0,
    ensures
        entry_of(roles, rows[i], format) == Ok::<Option<(RecordModel, Date)>, RowError>(None),
        entries_of(roles, rows, format) is Ok <==> entries_of(roles, rows.remove(i), format) is Ok,
        entries_of(roles, rows, format) is Ok ==> entries_of(roles, rows, format) == entries_of(
            roles,
            rows.remove(i),
            format,
        ),
        chart_of(roles, rows, format, colored) is Ok ==> chart_of(roles, rows, format, colored)
            == chart_of(roles, rows.remove(i), format, colored),
    decreases rows.len(),
{
    if i == rows.len() - 1 {
        assert(rows.remove(i) =~= rows.drop_last());
    } else {
        let without = rows.remove(i);
        assert(without.drop_last() =~= rows.drop_last().remove(i));
        assert(without.last() == rows.last());
        law_empty_key_row_is_passed_over(roles, rows.drop_last(), format, colored, i);
    }
}

/// Once a record has been taken in, its assignee stays registered at the
/// place where the record's item lies, whatever records follow.
pub proof fn law_resource_index_is_stable(entries: Seq<(RecordModel, Date)>, colored: bool, k: int, n: int)
    requires
        0 <= k < n <= entries.len(),
    ensures
        assemble(entries.take(n), colored).registry.knows(entries[k].0.assignee),
        assemble(entries.take(n), colored).registry.place_of(entries[k].0.assignee) == placed(
            entries,
            colored,
            k,
        ).resource_index,
{
    let upto = entries.take(n);
    let registry = assemble(upto, colored).registry;
    lemma_assembly(upto, colored);
    lemma_placed_in_prefix(entries, colored, n, k);
    let at = placed(upto, colored, k).resource_index;
    assert(registry.titles[at] == upto[k].0.assignee);
    let found = registry.titles.index_of(entries[k].0.assignee);
    assert(registry.titles[found] == entries[k].0.assignee);
}

/// Records with the same assignee get items on the same resource.
pub proof fn law_same_assignee_same_resource(entries: Seq<(RecordModel, Date)>, colored: bool, j: int, k: int)
    requires
        0 <= j < entries.len(),
        0 <= k < entries.len(),
        entries[j].0.assignee == entries[k].0.assignee,
    ensures
        placed(entries, colored, j).resource_index == placed(entries, colored, k).resource_index,
{
    law_resource_index_is_stable(entries, colored, j, entries.len() as int);
    law_resource_index_is_stable(entries, colored, k, entries.len() as int);
}

/// Only the first record of an assignee gets an item with a start date,
/// the day of its creation; the items of all later records of that assignee
/// have none.
pub proof fn law_only_first_item_starts(entries: Seq<(RecordModel, Date)>, colored: bool, k: int)
    requires
        0 <= k < entries.len(),
    ensures
        placed(entries, colored, k).start_date == if seen_before(entries, k) {
            None
        } else {
            Some(entries[k].1)
        },
{
    let upto = entries.take(k);
    let title = entries[k].0.assignee;
    lemma_assembly(upto, colored);
    if seen_before(entries, k) {
        let j = choose|j: int| 0 <= j < k && #[trigger] entries[j].0.assignee == title;
        assert(upto[j].0.assignee == title);
    }
    if assemble(upto, colored).registry.knows(title) {
        let j = choose|j: int| 0 <= j < upto.len() && #[trigger] upto[j].0.assignee == title;
        assert(entries[j].0.assignee == title);
    }
}

/// The duration of an item is absent exactly when the estimate of its
/// record is, and is otherwise the estimate in workdays.
pub proof fn law_duration_follows_estimate(record: RecordModel, resource_index: int, first: bool, created: Date)
    ensures
        item_of(record, resource_index, first, created).duration is None
            <==> record.original_estimate is None,
        record.original_estimate matches Some(seconds) ==> item_of(
            record,
            resource_index,
            first,
            created,
        ).duration == Some(workdays_of(seconds as int)),
{
}

/// The workdays of an estimate are the least number of workdays that hold
/// one second more than the estimate.
pub proof fn law_workdays_round_up(seconds: int)
    requires
        0 <= seconds,
    ensures
        workdays_of(seconds) * SECONDS_PER_WORKDAY >= seconds + 1,
        (workdays_of(seconds) - 1) * SECONDS_PER_WORKDAY < seconds + 1,
        workdays_of(seconds) == seconds / (SECONDS_PER_WORKDAY as int) + 1,
{
}

/// Every element of lanes laid end to end lies on one of the lanes.
pub proof fn lemma_flatten_members(lanes: Seq<Seq<ItemModel>>, i: int)
    requires
        0 <= i < lanes.flatten().len(),
    ensures
        exists|r: int, k: int|
            0 <= r < lanes.len() && 0 <= k < lanes[r].len() && lanes.flatten()[i] == #[trigger] lanes[r][k],
    decreases lanes.len(),
{
    if lanes.len() == 0 {
    } else {
        let n = lanes.len() - 1;
        let front = lanes.drop_last();
        front.lemma_flatten_push(lanes.last());
        assert(front.push(lanes.last()) =~= lanes);
        if i < front.flatten().len() {
            lemma_flatten_members(front, i);
            let (r, k) = choose|r: int, k: int|
                0 <= r < front.len() && 0 <= k < front[r].len() && front.flatten()[i] == #[trigger] front[r][k];
            assert(lanes.flatten()[i] == lanes[r][k]);
        } else {
            let k = i - front.flatten().len();
            assert(lanes.flatten()[i] == lanes[n][k]);
        }
    }
}

/// Every item of a document lies on one of its resources.
pub proof fn law_items_lie_on_resources(entries: Seq<(RecordModel, Date)>, colored: bool)
    ensures
        assemble(entries, colored).document().wf(),
{
    lemma_assembly(entries, colored);
    let after = assemble(entries, colored);
    let doc = after.document();
    assert forall|i: int| 0 <= i < doc.items.len() implies 0 <= (#[trigger] doc.items[i]).resource_index
        < doc.resources.len() by {
        lemma_flatten_members(after.lanes, i);
        let (r, k) = choose|r: int, k: int|
            0 <= r < after.lanes.len() && 0 <= k < after.lanes[r].len() && after.lanes.flatten()[i]
                == #[trigger] after.lanes[r][k];
        assert(after.lanes[r][k].resource_index == r);
    }
}

/// Lanes whose items carry the place of their lane, laid end to end, are in
/// the order of the places.
pub proof fn lemma_flatten_in_lane_order(lanes: Seq<Seq<ItemModel>>, i: int, j: int)
    requires
        forall|r: int, k: int|
            0 <= r < lanes.len() && 0 <= k < lanes[r].len() ==> (#[trigger] lanes[r][k]).resource_index == r,
        0 <= i <= j < lanes.flatten().len(),
    ensures
        lanes.flatten()[i].resource_index <= lanes.flatten()[j].resource_index,
    decreases lanes.len(),
{
    if lanes.len() > 0 {
        let n = lanes.len() - 1;
        let front = lanes.drop_last();
        front.lemma_flatten_push(lanes.last());
        assert(front.push(lanes.last()) =~= lanes);
        let split = front.flatten().len();
        if j < split {
            lemma_flatten_in_lane_order(front, i, j);
        } else {
            assert(lanes.flatten()[j] == lanes[n][j - split]);
            if i < split {
                lemma_flatten_members(front, i);
                let (r, k) = choose|r: int, k: int|
                    0 <= r < front.len() && 0 <= k < front[r].len() && front.flatten()[i] == #[trigger] front[r][k];
                assert(lanes[r][k].resource_index == r);
            } else {
                assert(lanes.flatten()[i] == lanes[n][i - split]);
            }
        }
    }
}

/// In a document no item of a later resource stands before an item of an
/// earlier one.
pub proof fn law_items_follow_the_resources(entries: Seq<(RecordModel, Date)>, colored: bool, i: int, j: int)
    requires
        0 <= i <= j < assemble(entries, colored).document().items.len(),
    ensures
        assemble(entries, colored).document().items[i].resource_index <= assemble(
            entries,
            colored,
        ).document().items[j].resource_index,
{
    lemma_assembly(entries, colored);
    lemma_flatten_in_lane_order(assemble(entries, colored).lanes, i, j);
}

/// The items of a document stand resource by resource: first the items of
/// the first resource, then those of the second, and so on, each group in
/// the order of the records.
pub proof fn law_items_are_grouped_by_resource(entries: Seq<(RecordModel, Date)>, colored: bool)
    ensures
        assemble(entries, colored).document().items == Seq::new(
            assemble(entries, colored).registry.titles.len(),
            |r: int| placed_items(entries, colored).filter(on_lane(r)),
        ).flatten(),
        assemble(entries, colored).document().resources.len() == assemble(
            entries,
            colored,
        ).registry.titles.len(),
{
    lemma_assembly(entries, colored);
    let after = assemble(entries, colored);
    assert(after.lanes =~= Seq::new(
        after.registry.titles.len(),
        |r: int| placed_items(entries, colored).filter(on_lane(r)),
    ));
}

/// A resource is published at the place where it was registered, under its
/// own title, or under `unassigned` if its title is empty, and with the
/// colour of that place.
pub proof fn law_resources_keep_their_places(entries: Seq<(RecordModel, Date)>, colored: bool, k: int)
    requires
        0 <= k < entries.len(),
    ensures
        0 <= placed(entries, colored, k).resource_index < assemble(
            entries,
            colored,
        ).document().resources.len(),
        assemble(entries, colored).document().resources[placed(
            entries,
            colored,
            k,
        ).resource_index].title == if entries[k].0.assignee.len() == 0 {
            "unassigned"@
        } else {
            entries[k].0.assignee
        },
        assemble(entries, colored).document().resources[placed(
            entries,
            colored,
            k,
        ).resource_index].color == color_at(placed(entries, colored, k).resource_index, colored),
{
    lemma_assembly(entries, colored);
}

/// Where colours are wanted, the resources get the colours of the palette
/// in the order of their registration, starting over when the palette is
/// used up; where they are not, no resource has a colour.
pub proof fn law_colors_cycle_through_palette(entries: Seq<(RecordModel, Date)>, colored: bool, i: int)
    requires
        0 <= i < assemble(entries, colored).document().resources.len(),
    ensures
        assemble(entries, colored).document().resources[i].color == if colored {
            Some(palette()[i % (PALETTE_LEN as int)])
        } else {
            None
        },
{
    lemma_assembly(entries, colored);
}

} // verus!
