//! The entries of a line configuration as a sequence: what an assignment
//! makes of them, and what holds of the result.

use vstd::prelude::*;
use crate::line::{Offset, Settings};

verus! {

/// The entries of a configuration that holds none.
pub open spec fn no_entries() -> Seq<(Offset, Settings)> {
    Seq::empty()
}

/// The offsets of `entries`, in their order.
pub open spec fn entry_offsets(entries: Seq<(Offset, Settings)>) -> Seq<Offset> {
    entries.map_values(|e: (Offset, Settings)| e.0)
}

/// No offset has two entries. This holds of the entries of every
/// configuration.
pub open spec fn well_formed(entries: Seq<(Offset, Settings)>) -> bool {
    entry_offsets(entries).no_duplicates()
}

/// A place in `entries` at which `offset` stands, if it stands anywhere.
pub open spec fn place_of(entries: Seq<(Offset, Settings)>, offset: Offset) -> int {
    choose|i: int| 0 <= i < entries.len() && entries[i].0 == offset
}

/// The settings that `entries` holds for `offset`, if it holds any.
pub open spec fn settings_of(entries: Seq<(Offset, Settings)>, offset: Offset) -> Option<
    Settings,
> {
    if entry_offsets(entries).contains(offset) {
        Some(entries[place_of(entries, offset)].1)
    } else {
        None
    }
}

/// `order`, followed by the offsets of `offsets` that `order` lacks: each of
/// them once, at the place of its first occurrence in `offsets`.
pub open spec fn with_new_offsets(order: Seq<Offset>, offsets: Seq<Offset>) -> Seq<Offset>
    decreases offsets.len(),
{
    if offsets.len() == 0 {
        order
    } else {
        let earlier = with_new_offsets(order, offsets.drop_last());
        if earlier.contains(offsets.last()) {
            earlier
        } else {
            earlier.push(offsets.last())
        }
    }
}

/// The entries after `settings` has been assigned to each of `offsets`.
///
/// The offsets that `entries` holds keep their places and the new ones follow
/// in the order of their first occurrence. Each offset of `offsets` gets
/// `settings`, every other one keeps what it had.
pub open spec fn assigned(
    entries: Seq<(Offset, Settings)>,
    offsets: Seq<Offset>,
    settings: Settings,
) -> Seq<(Offset, Settings)> {
    let order = with_new_offsets(entry_offsets(entries), offsets);
    Seq::new(
        order.len(),
        |i: int|
            (
                order[i],
                if offsets.contains(order[i]) {
                    settings
                } else {
                    settings_of(entries, order[i]).unwrap()
                },
            ),
    )
}

/// `first` occurs in `s` at a place that no occurrence of `second` goes
/// before.
pub open spec fn occurs_before(s: Seq<Offset>, first: Offset, second: Offset) -> bool {
    exists|k: int|
        0 <= k < s.len() && s[k] == first && forall|m: int| 0 <= m <= k ==> s[m] != second
}

/// A configuration without entries, be it new or reset, has no offsets, and
/// no offset has settings in it.
pub proof fn lemma_no_entries_hold_nothing(offset: Offset)
    ensures
        entry_offsets(no_entries()) == Seq::<Offset>::empty(),
        settings_of(no_entries(), offset) is None,
{
}

/// The offsets after an assignment: those that the configuration held and
/// those that were assigned, each once, in the order in which each first
/// occurs among the held offsets followed by the assigned ones.
pub proof fn lemma_offsets_after_assignment(
    entries: Seq<(Offset, Settings)>,
    offsets: Seq<Offset>,
    settings: Settings,
)
    requires
        well_formed(entries),
    ensures
        ({
            let after = entry_offsets(assigned(entries, offsets, settings));
            let all = entry_offsets(entries) + offsets;
            &&& after.no_duplicates()
            &&& forall|offset: Offset| #[trigger] after.contains(offset) <==> all.contains(offset)
            &&& forall|i: int, j: int|
                0 <= i < j < after.len() ==> occurs_before(
                    all,
                    #[trigger] after[i],
                    #[trigger] after[j],
                )
        }),
{
    let held = entry_offsets(entries);
    lemma_offsets_of_assigned(entries, offsets, settings);
    lemma_with_new_offsets(held, offsets);
    lemma_with_new_offsets_order(held, offsets);
    assert forall|offset: Offset| #[trigger]
        with_new_offsets(held, offsets).contains(offset) <==> (held + offsets).contains(
            offset,
        ) by {
        lemma_contains_of_concat(held, offsets, offset);
    }
}

/// The offsets of a configuration that held nothing before an assignment:
/// exactly the assigned offsets, each once, in the order of their first
/// occurrence.
pub proof fn lemma_offsets_after_first_assignment(offsets: Seq<Offset>, settings: Settings)
    ensures
        ({
            let after = entry_offsets(assigned(no_entries(), offsets, settings));
            &&& after.no_duplicates()
            &&& forall|offset: Offset| #[trigger]
                after.contains(offset) <==> offsets.contains(offset)
            &&& forall|i: int, j: int|
                0 <= i < j < after.len() ==> occurs_before(
                    offsets,
                    #[trigger] after[i],
                    #[trigger] after[j],
                )
        }),
{
    assert(entry_offsets(no_entries()) + offsets =~= offsets);
    lemma_offsets_after_assignment(no_entries(), offsets, settings);
}

/// The offsets after two assignments are those after one assignment of the
/// first list of offsets followed by the second: the order of first
/// assignment carries over from call to call.
pub proof fn lemma_offsets_after_two_assignments(
    entries: Seq<(Offset, Settings)>,
    first: Seq<Offset>,
    first_settings: Settings,
    second: Seq<Offset>,
    second_settings: Settings,
)
    ensures
        entry_offsets(
            assigned(assigned(entries, first, first_settings), second, second_settings),
        ) == with_new_offsets(entry_offsets(entries), first + second),
{
    let between = assigned(entries, first, first_settings);
    lemma_offsets_of_assigned(entries, first, first_settings);
    lemma_offsets_of_assigned(between, second, second_settings);
    lemma_with_new_offsets_twice(entry_offsets(entries), first, second);
}

/// What an offset has after an assignment: the assigned settings if the
/// assignment names it, else what it had before, which is nothing if it had
/// nothing.
pub proof fn lemma_settings_after_assignment(
    entries: Seq<(Offset, Settings)>,
    offsets: Seq<Offset>,
    settings: Settings,
    offset: Offset,
)
    requires
        well_formed(entries),
    ensures
        settings_of(assigned(entries, offsets, settings), offset) == if offsets.contains(
            offset,
        ) {
            Some(settings)
        } else {
            settings_of(entries, offset)
        },
{
    let after = assigned(entries, offsets, settings);
    let order = with_new_offsets(entry_offsets(entries), offsets);
    lemma_with_new_offsets(entry_offsets(entries), offsets);
    if order.contains(offset) {
        let i = choose|i: int| 0 <= i < order.len() && order[i] == offset;
        lemma_settings_of_entry(after, i);
    }
}

/// An offset that no assignment has named has no settings: it has none
/// after an assignment that does not name it if it had none before.
pub proof fn lemma_unassigned_offset_has_no_settings(
    entries: Seq<(Offset, Settings)>,
    offsets: Seq<Offset>,
    settings: Settings,
    offset: Offset,
)
    requires
        well_formed(entries),
        settings_of(entries, offset) is None,
        !offsets.contains(offset),
    ensures
        settings_of(assigned(entries, offsets, settings), offset) is None,
{
    lemma_settings_after_assignment(entries, offsets, settings, offset);
}

/// A later assignment overrides an earlier one: whatever was assigned
/// first, and to whichever offsets, an offset that the second assignment
/// names has the second settings afterwards.
pub proof fn lemma_later_assignment_overrides(
    entries: Seq<(Offset, Settings)>,
    first: Seq<Offset>,
    first_settings: Settings,
    second: Seq<Offset>,
    second_settings: Settings,
    offset: Offset,
)
    requires
        well_formed(entries),
        second.contains(offset),
    ensures
        settings_of(
            assigned(assigned(entries, first, first_settings), second, second_settings),
            offset,
        ) == Some(second_settings),
{
    let between = assigned(entries, first, first_settings);
    lemma_offsets_after_assignment(entries, first, first_settings);
    lemma_settings_after_assignment(between, second, second_settings, offset);
}

/// Assigned settings are read back as they were assigned, and stay so
/// through every later assignment that does not name the offset.
pub proof fn lemma_assigned_settings_are_kept(
    entries: Seq<(Offset, Settings)>,
    offsets: Seq<Offset>,
    settings: Settings,
    later: Seq<Offset>,
    later_settings: Settings,
    offset: Offset,
)
    requires
        well_formed(entries),
        offsets.contains(offset),
    ensures
        settings_of(assigned(entries, offsets, settings), offset) == Some(settings),
        !later.contains(offset) ==> settings_of(
            assigned(assigned(entries, offsets, settings), later, later_settings),
            offset,
        ) == Some(settings),
{
    let between = assigned(entries, offsets, settings);
    lemma_offsets_after_assignment(entries, offsets, settings);
    lemma_settings_after_assignment(entries, offsets, settings, offset);
    lemma_settings_after_assignment(between, later, later_settings, offset);
}

/// Where no offset has two entries, each entry's settings are those of its
/// offset.
pub proof fn lemma_settings_of_entry(entries: Seq<(Offset, Settings)>, i: int)
    requires
        well_formed(entries),
        0 <= i < entries.len(),
    ensures
        settings_of(entries, entries[i].0) == Some(entries[i].1),
{
    let offset = entries[i].0;
    let j = place_of(entries, offset);
    assert(entry_offsets(entries)[i] == offset);
    assert(entry_offsets(entries)[j] == offset);
}

/// The offsets after an assignment are the earlier ones followed by the new.
pub proof fn lemma_offsets_of_assigned(
    entries: Seq<(Offset, Settings)>,
    offsets: Seq<Offset>,
    settings: Settings,
)
    ensures
        entry_offsets(assigned(entries, offsets, settings)) == with_new_offsets(
            entry_offsets(entries),
            offsets,
        ),
{
    assert(entry_offsets(assigned(entries, offsets, settings)) =~= with_new_offsets(
        entry_offsets(entries),
        offsets,
    ));
}

/// What [`with_new_offsets`] keeps and what it adds: `order` stays in front,
/// the result holds the offsets of both and nothing else, and nothing occurs
/// twice in it if nothing did in `order`.
pub proof fn lemma_with_new_offsets(order: Seq<Offset>, offsets: Seq<Offset>)
    ensures
        order.is_prefix_of(with_new_offsets(order, offsets)),
        forall|offset: Offset| #[trigger]
            with_new_offsets(order, offsets).contains(offset) <==> order.contains(offset)
                || offsets.contains(offset),
        order.no_duplicates() ==> with_new_offsets(order, offsets).no_duplicates(),
    decreases offsets.len(),
{
    let result = with_new_offsets(order, offsets);
    if offsets.len() > 0 {
        let earlier = with_new_offsets(order, offsets.drop_last());
        lemma_with_new_offsets(order, offsets.drop_last());
        assert(order =~= result.subrange(0, order.len() as int));
        assert forall|offset: Offset| #[trigger]
            result.contains(offset) <==> order.contains(offset) || offsets.contains(
                offset,
            ) by {
            lemma_contains_with_last(offsets, offset);
            if !earlier.contains(offsets.last()) {
                assert(result.drop_last() =~= earlier);
                lemma_contains_with_last(result, offset);
            }
        }
    }
}

/// [`with_new_offsets`] keeps the order of first occurrence: of two offsets
/// of the result, the one in front occurs first in `order` followed by
/// `offsets`.
pub proof fn lemma_with_new_offsets_order(order: Seq<Offset>, offsets: Seq<Offset>)
    requires
        order.no_duplicates(),
    ensures
        forall|i: int, j: int|
            0 <= i < j < with_new_offsets(order, offsets).len() ==> occurs_before(
                order + offsets,
                #[trigger] with_new_offsets(order, offsets)[i],
                #[trigger] with_new_offsets(order, offsets)[j],
            ),
    decreases offsets.len(),
{
    let result = with_new_offsets(order, offsets);
    let all = order + offsets;
    if offsets.len() == 0 {
        assert forall|i: int, j: int| 0 <= i < j < result.len() implies occurs_before(
            all,
            #[trigger] result[i],
            #[trigger] result[j],
        ) by {
            assert(all[i] == result[i]);
            assert(forall|m: int| 0 <= m <= i ==> all[m] != result[j]);
        }
    } else {
        let shorter = offsets.drop_last();
        let last = offsets.last();
        let earlier = with_new_offsets(order, shorter);
        let before = order + shorter;
        lemma_with_new_offsets_order(order, shorter);
        lemma_with_new_offsets(order, shorter);
        assert forall|i: int, j: int| 0 <= i < j < result.len() implies occurs_before(
            all,
            #[trigger] result[i],
            #[trigger] result[j],
        ) by {
            if j < earlier.len() {
                let k = choose|k: int|
                    0 <= k < before.len() && before[k] == earlier[i] && forall|m: int|
                        0 <= m <= k ==> before[m] != earlier[j];
                assert(all[k] == result[i]);
                assert forall|m: int| 0 <= m <= k implies all[m] != result[j] by {
                    assert(before[m] != earlier[j]);
                }
            } else {
                assert(earlier.contains(earlier[i]));
                lemma_contains_of_concat(order, shorter, earlier[i]);
                let k = choose|k: int| 0 <= k < before.len() && before[k] == earlier[i];
                assert(all[k] == result[i]);
                assert forall|m: int| 0 <= m <= k implies all[m] != last by {
                    if all[m] == last {
                        assert(before[m] == last);
                    }
                }
            }
        }
    }
}

/// Adding the new offsets of one list and then those of another adds what
/// the two lists in a row would add, in the same order.
pub proof fn lemma_with_new_offsets_twice(
    order: Seq<Offset>,
    first: Seq<Offset>,
    second: Seq<Offset>,
)
    ensures
        with_new_offsets(with_new_offsets(order, first), second) == with_new_offsets(
            order,
            first + second,
        ),
    decreases second.len(),
{
    if second.len() == 0 {
        assert(first + second =~= first);
    } else {
        lemma_with_new_offsets_twice(order, first, second.drop_last());
        assert((first + second).drop_last() =~= first + second.drop_last());
    }
}

/// Assigning to no offset changes nothing.
pub proof fn lemma_assigned_nothing(entries: Seq<(Offset, Settings)>, settings: Settings)
    requires
        well_formed(entries),
    ensures
        assigned(entries, Seq::<Offset>::empty(), settings) == entries,
{
    let after = assigned(entries, Seq::<Offset>::empty(), settings);
    assert forall|i: int| 0 <= i < entries.len() implies after[i] == entries[i] by {
        lemma_settings_of_entry(entries, i);
    }
    assert(after =~= entries);
}

/// Assigning to one more offset either replaces the settings of the entry
/// that the offset has, or appends an entry for it.
pub proof fn lemma_assigned_one_more(
    entries: Seq<(Offset, Settings)>,
    offsets: Seq<Offset>,
    offset: Offset,
    settings: Settings,
)
    requires
        well_formed(entries),
    ensures
        ({
            let current = assigned(entries, offsets, settings);
            let next = assigned(entries, offsets.push(offset), settings);
            &&& entry_offsets(current).no_duplicates()
            &&& entry_offsets(next).no_duplicates()
            &&& forall|i: int|
                0 <= i < current.len() && current[i].0 == offset ==> next == current.update(
                    i,
                    (offset, settings),
                )
            &&& (forall|i: int| 0 <= i < current.len() ==> current[i].0 != offset) ==> next
                == current.push((offset, settings))
        }),
{
    let longer = offsets.push(offset);
    let current = assigned(entries, offsets, settings);
    let next = assigned(entries, longer, settings);
    let order = with_new_offsets(entry_offsets(entries), offsets);
    let next_order = with_new_offsets(entry_offsets(entries), longer);
    assert(longer.drop_last() =~= offsets);
    lemma_with_new_offsets(entry_offsets(entries), offsets);
    assert forall|other: Offset| #[trigger]
        longer.contains(other) <==> offsets.contains(other) || other == offset by {
        lemma_contains_with_last(longer, other);
    }
    assert forall|i: int| 0 <= i < current.len() && current[i].0 == offset implies next
        == current.update(i, (offset, settings)) by {
        assert(order.contains(offset));
        assert(next =~= current.update(i, (offset, settings)));
    }
    if forall|i: int| 0 <= i < current.len() ==> current[i].0 != offset {
        if order.contains(offset) {
            let i = choose|i: int| 0 <= i < order.len() && order[i] == offset;
            assert(current[i].0 == offset);
        }
        assert(next_order == order.push(offset));
        assert(next =~= current.push((offset, settings)));
    }
}

/// A sequence holds what all but its last element hold, and that last element.
proof fn lemma_contains_with_last(s: Seq<Offset>, offset: Offset)
    requires
        s.len() > 0,
    ensures
        s.contains(offset) <==> s.drop_last().contains(offset) || s.last() == offset,
{
    if s.contains(offset) {
        let i = choose|i: int| 0 <= i < s.len() && s[i] == offset;
        if i < s.len() - 1 {
            assert(s.drop_last()[i] == offset);
        }
    }
    if s.drop_last().contains(offset) {
        let i = choose|i: int| 0 <= i < s.drop_last().len() && s.drop_last()[i] == offset;
        assert(s[i] == offset);
    }
}

/// A concatenation holds what its two parts hold.
proof fn lemma_contains_of_concat(a: Seq<Offset>, b: Seq<Offset>, offset: Offset)
    ensures
        (a + b).contains(offset) <==> a.contains(offset) || b.contains(offset),
{
    if (a + b).contains(offset) {
        let i = choose|i: int| 0 <= i < (a + b).len() && (a + b)[i] == offset;
        if i < a.len() {
            assert(a[i] == offset);
        } else {
            assert(b[i - a.len()] == offset);
        }
    }
    if a.contains(offset) {
        let i = choose|i: int| 0 <= i < a.len() && a[i] == offset;
        assert((a + b)[i] == offset);
    }
    if b.contains(offset) {
        let i = choose|i: int| 0 <= i < b.len() && b[i] == offset;
        assert((a + b)[a.len() + i] == offset);
    }
}

} // verus!
