//! What the removal of a scene object leaves of a scene.

use vstd::prelude::*;
use crate::scene::{
    empty_id,
    lemma_position_of,
    position_of,
    removal,
    removal_of_all,
    swap_removed,
    without_child,
    ObjectView,
    SceneObjectId,
};

verus! {

/// An object has the identifier.
pub open spec fn present<C>(objects: Seq<ObjectView<C>>, id: SceneObjectId) -> bool {
    exists|i: int| 0 <= i < objects.len() && (#[trigger] objects[i]).id == id
}

/// No two objects have one identifier.
pub open spec fn ids_unique<C>(objects: Seq<ObjectView<C>>) -> bool {
    forall|i: int, j: int|
        0 <= i < j < objects.len() ==> (#[trigger] objects[i]).id != (#[trigger] objects[j]).id
}

/// An object with the identifier `parent` lists `child` among its children.
pub open spec fn lists<C>(
    objects: Seq<ObjectView<C>>,
    parent: SceneObjectId,
    child: SceneObjectId,
) -> bool {
    exists|i: int|
        0 <= i < objects.len() && (#[trigger] objects[i]).id == parent
            && objects[i].children.contains(child)
}

/// `x` is `top` or is reached from it in at most `steps` steps from an
/// object to one that it lists.
pub open spec fn below_within<C>(
    objects: Seq<ObjectView<C>>,
    top: SceneObjectId,
    x: SceneObjectId,
    steps: nat,
) -> bool
    decreases steps,
{
    x == top || (steps > 0 && exists|middle: SceneObjectId|
        #[trigger] lists(objects, top, middle) && below_within(
            objects,
            middle,
            x,
            (steps - 1) as nat,
        ))
}

/// `x` is `top` or stands below it: it is reached from `top` by steps from
/// an object to one that it lists.
pub open spec fn below<C>(objects: Seq<ObjectView<C>>, top: SceneObjectId, x: SceneObjectId) -> bool {
    exists|steps: nat| #[trigger] below_within(objects, top, x, steps)
}

/// `now` is `once` with nothing changed but entries taken from the list of
/// its children.
pub open spec fn thinned<C>(once: ObjectView<C>, now: ObjectView<C>) -> bool {
    &&& now.name == once.name
    &&& now.id == once.id
    &&& now.parent_id == once.parent_id
    &&& now.components == once.components
    &&& forall|child: SceneObjectId| #[trigger]
        now.children.contains(child) ==> once.children.contains(child)
}

/// `now` is an object of `before` with nothing changed but entries taken
/// from the list of its children.
pub open spec fn came_from<C>(before: Seq<ObjectView<C>>, now: ObjectView<C>) -> bool {
    exists|i: int| 0 <= i < before.len() && thinned(#[trigger] before[i], now)
}

/// Every object of `after` is an object of `before` with nothing changed but
/// entries taken from the list of its children.
pub open spec fn left_from<C>(before: Seq<ObjectView<C>>, after: Seq<ObjectView<C>>) -> bool {
    forall|j: int| 0 <= j < after.len() ==> came_from(before, #[trigger] after[j])
}

/// None of the identifiers is found.
pub open spec fn all_gone<C>(after: Seq<ObjectView<C>>, tops: Set<SceneObjectId>) -> bool {
    forall|top: SceneObjectId| tops.contains(top) ==> !#[trigger] present(after, top)
}

/// Whatever is no longer found stood below one of the identifiers, or was
/// one of them.
pub open spec fn only_below_gone<C>(
    before: Seq<ObjectView<C>>,
    after: Seq<ObjectView<C>>,
    tops: Set<SceneObjectId>,
) -> bool {
    forall|x: SceneObjectId|
        present(before, x) && !#[trigger] present(after, x) ==> exists|top: SceneObjectId|
            tops.contains(top) && #[trigger] below(before, top, x)
}

/// Whatever an object listed that is no longer found is no longer found
/// either.
pub open spec fn gone_with_children<C>(
    before: Seq<ObjectView<C>>,
    after: Seq<ObjectView<C>>,
) -> bool {
    forall|x: SceneObjectId, child: SceneObjectId|
        !present(after, x) && #[trigger] lists(before, x, child) ==> !present(after, child)
}

/// An entry that an object no longer lists names an object that is no longer
/// found.
pub open spec fn lost_entries_gone<C>(
    before: Seq<ObjectView<C>>,
    after: Seq<ObjectView<C>>,
) -> bool {
    forall|i: int, j: int, child: SceneObjectId|
        0 <= i < before.len() && 0 <= j < after.len() && (#[trigger] after[j]).id == (
        #[trigger] before[i]).id && #[trigger] before[i].children.contains(child)
            ==> after[j].children.contains(child) || !present(after, child)
}

/// What there is to say of the objects that are left when the objects named
/// by `tops` were removed with all that stood below them.
pub open spec fn removed_below<C>(
    before: Seq<ObjectView<C>>,
    after: Seq<ObjectView<C>>,
    tops: Set<SceneObjectId>,
) -> bool {
    &&& ids_unique(after)
    &&& left_from(before, after)
    &&& all_gone(after, tops)
    &&& only_below_gone(before, after, tops)
    &&& gone_with_children(before, after)
    &&& lost_entries_gone(before, after)
}

/// An identifier is found exactly where `position_of` finds it.
pub proof fn lemma_present_position<C>(objects: Seq<ObjectView<C>>, id: SceneObjectId)
    ensures
        present(objects, id) <==> position_of(objects, id) is Some,
{
    lemma_position_of(objects, id);
    if position_of(objects, id) is Some {
        assert(objects[position_of(objects, id)->0].id == id);
    }
}

/// What is not found is not found in what is left.
pub proof fn lemma_gone_stays_gone<C>(
    before: Seq<ObjectView<C>>,
    after: Seq<ObjectView<C>>,
    x: SceneObjectId,
)
    requires
        left_from(before, after),
        !present(before, x),
    ensures
        !present(after, x),
{
    if present(after, x) {
        let j = choose|j: int| 0 <= j < after.len() && (#[trigger] after[j]).id == x;
        assert(came_from(before, after[j]));
        let i = choose|i: int| 0 <= i < before.len() && thinned(#[trigger] before[i], after[j]);
        assert(before[i].id == x);
    }
}

/// What is listed in what is left was listed before.
pub proof fn lemma_lists_was_listed<C>(
    before: Seq<ObjectView<C>>,
    after: Seq<ObjectView<C>>,
    parent: SceneObjectId,
    child: SceneObjectId,
)
    requires
        left_from(before, after),
        lists(after, parent, child),
    ensures
        lists(before, parent, child),
{
    let j = choose|j: int|
        0 <= j < after.len() && (#[trigger] after[j]).id == parent && after[j].children.contains(
            child,
        );
    assert(came_from(before, after[j]));
    let i = choose|i: int| 0 <= i < before.len() && thinned(#[trigger] before[i], after[j]);
    assert(before[i].id == parent && before[i].children.contains(child));
}

/// What stands below in what is left stood below before.
pub proof fn lemma_below_was_below<C>(
    before: Seq<ObjectView<C>>,
    after: Seq<ObjectView<C>>,
    top: SceneObjectId,
    x: SceneObjectId,
    steps: nat,
)
    requires
        left_from(before, after),
        below_within(after, top, x, steps),
    ensures
        below_within(before, top, x, steps),
    decreases steps,
{
    if x != top {
        let middle = choose|middle: SceneObjectId|
            #[trigger] lists(after, top, middle) && below_within(
                after,
                middle,
                x,
                (steps - 1) as nat,
            );
        lemma_lists_was_listed(before, after, top, middle);
        lemma_below_was_below(before, after, middle, x, (steps - 1) as nat);
    }
}

/// What stands below a listed object stands below the one that lists it.
pub proof fn lemma_below_one_more<C>(
    objects: Seq<ObjectView<C>>,
    top: SceneObjectId,
    middle: SceneObjectId,
    x: SceneObjectId,
)
    requires
        lists(objects, top, middle),
        below(objects, middle, x),
    ensures
        below(objects, top, x),
{
    let steps = choose|steps: nat| #[trigger] below_within(objects, middle, x, steps);
    assert(below_within(objects, middle, x, ((steps + 1) - 1) as nat));
    assert(below_within(objects, top, x, steps + 1));
}

/// Being left from is passed on.
pub proof fn lemma_left_from_twice<C>(
    first: Seq<ObjectView<C>>,
    second: Seq<ObjectView<C>>,
    third: Seq<ObjectView<C>>,
)
    requires
        left_from(first, second),
        left_from(second, third),
    ensures
        left_from(first, third),
{
    assert forall|k: int| 0 <= k < third.len() implies came_from(first, #[trigger] third[k]) by {
        assert(came_from(second, third[k]));
        let j = choose|j: int| 0 <= j < second.len() && thinned(#[trigger] second[j], third[k]);
        assert(came_from(first, second[j]));
        let i = choose|i: int| 0 <= i < first.len() && thinned(#[trigger] first[i], second[j]);
        assert(thinned(first[i], third[k]));
    }
}

/// Removing one set of objects with all below them and then another is
/// removing both.
pub proof fn lemma_removed_below_twice<C>(
    first: Seq<ObjectView<C>>,
    second: Seq<ObjectView<C>>,
    third: Seq<ObjectView<C>>,
    tops: Set<SceneObjectId>,
    more_tops: Set<SceneObjectId>,
)
    requires
        removed_below(first, second, tops),
        removed_below(second, third, more_tops),
    ensures
        removed_below(first, third, tops.union(more_tops)),
{
    let all = tops.union(more_tops);
    lemma_left_from_twice(first, second, third);
    assert forall|top: SceneObjectId| all.contains(top) implies !#[trigger] present(third, top) by {
        if tops.contains(top) {
            assert(!present(second, top));
            lemma_gone_stays_gone(second, third, top);
        }
    }
    assert forall|x: SceneObjectId| present(first, x) && !#[trigger] present(third, x) implies exists|
        top: SceneObjectId,
    | all.contains(top) && #[trigger] below(first, top, x) by {
        if !present(second, x) {
            let top = choose|top: SceneObjectId|
                tops.contains(top) && #[trigger] below(first, top, x);
            assert(all.contains(top) && below(first, top, x));
        } else {
            let top = choose|top: SceneObjectId|
                more_tops.contains(top) && #[trigger] below(second, top, x);
            let steps = choose|steps: nat| #[trigger] below_within(second, top, x, steps);
            lemma_below_was_below(first, second, top, x, steps);
            assert(all.contains(top) && below(first, top, x));
        }
    }
    assert forall|x: SceneObjectId, child: SceneObjectId|
        !present(third, x) && #[trigger] lists(first, x, child) implies !present(third, child) by {
        if !present(second, x) {
            assert(!present(second, child));
            lemma_gone_stays_gone(second, third, child);
        } else {
            let i = choose|i: int|
                0 <= i < first.len() && (#[trigger] first[i]).id == x && first[i].children.contains(
                    child,
                );
            let j = choose|j: int| 0 <= j < second.len() && (#[trigger] second[j]).id == x;
            assert(second[j].id == first[i].id && first[i].children.contains(child));
            if second[j].children.contains(child) {
                assert(lists(second, x, child));
            } else {
                lemma_gone_stays_gone(second, third, child);
            }
        }
    }
    assert forall|i: int, k: int, child: SceneObjectId|
        0 <= i < first.len() && 0 <= k < third.len() && (#[trigger] third[k]).id == (
        #[trigger] first[i]).id && #[trigger] first[i].children.contains(
            child,
        ) implies third[k].children.contains(child) || !present(third, child) by {
        assert(came_from(second, third[k]));
        let j = choose|j: int| 0 <= j < second.len() && thinned(#[trigger] second[j], third[k]);
        assert(second[j].id == first[i].id && first[i].children.contains(child));
        if second[j].children.contains(child) {
            assert(third[k].id == second[j].id && second[j].children.contains(child));
        } else {
            lemma_gone_stays_gone(second, third, child);
        }
    }
}

/// Removing nothing leaves everything.
pub proof fn lemma_removed_nothing<C>(objects: Seq<ObjectView<C>>)
    requires
        ids_unique(objects),
    ensures
        removed_below(objects, objects, Set::<SceneObjectId>::empty()),
{
    assert forall|j: int| 0 <= j < objects.len() implies came_from(objects, #[trigger] objects[j]) by {
        assert(thinned(objects[j], objects[j]));
    }
    assert forall|i: int, j: int, child: SceneObjectId|
        0 <= i < objects.len() && 0 <= j < objects.len() && (#[trigger] objects[j]).id == (
        #[trigger] objects[i]).id && #[trigger] objects[i].children.contains(
            child,
        ) implies objects[j].children.contains(child) || !present(objects, child) by {
        assert(i == j);
    }
}

/// What is in a sequence after one element was taken out, and the last put
/// in its place, was in it before, and all that was in it at other positions
/// still is.
pub proof fn lemma_swap_removed<T>(items: Seq<T>, position: int)
    requires
        0 <= position < items.len(),
    ensures
        swap_removed(items, position).len() == items.len() - 1,
        forall|j: int|
            0 <= j < items.len() - 1 ==> #[trigger] swap_removed(items, position)[j] == if j
                == position {
                items.last()
            } else {
                items[j]
            },
{
}

/// Taking a child from the list of its parent changes nothing but that list,
/// which loses no other child.
pub proof fn lemma_without_child<C>(
    objects: Seq<ObjectView<C>>,
    parent: SceneObjectId,
    child: SceneObjectId,
)
    requires
        without_child(objects, parent, child) is Some,
    ensures
        without_child(objects, parent, child)->0.len() == objects.len(),
        forall|i: int|
            0 <= i < objects.len() ==> thinned(
                objects[i],
                #[trigger] without_child(objects, parent, child)->0[i],
            ),
        forall|i: int, other: SceneObjectId|
            0 <= i < objects.len() && other != child && #[trigger] objects[i].children.contains(
                other,
            ) ==> without_child(objects, parent, child)->0[i].children.contains(other),
{
    let after = without_child(objects, parent, child)->0;
    lemma_position_of(objects, parent);
    let at = position_of(objects, parent)->0;
    let list = objects[at].children;
    crate::scene::lemma_index_of(list, child);
    let entry = crate::scene::index_of(list, child)->0;
    let thinner = swap_removed(list, entry);
    lemma_swap_removed(list, entry);
    assert forall|other: SceneObjectId| #[trigger] thinner.contains(other) implies list.contains(
        other,
    ) by {
        let j = choose|j: int| 0 <= j < thinner.len() && thinner[j] == other;
        if j == entry {
            assert(list[list.len() - 1] == other);
        } else {
            assert(list[j] == other);
        }
    }
    assert forall|other: SceneObjectId| other != child && list.contains(
        other,
    ) implies #[trigger] thinner.contains(other) by {
        let m = choose|m: int| 0 <= m < list.len() && list[m] == other;
        if m == list.len() - 1 {
            assert(thinner[entry] == other);
        } else {
            assert(thinner[m] == other);
        }
    }
    assert forall|i: int| 0 <= i < objects.len() implies thinned(objects[i], #[trigger] after[i]) by {
        if i == at {
            assert(after[i].children == thinner);
        }
    }
    assert forall|i: int, other: SceneObjectId|
        0 <= i < objects.len() && other != child && #[trigger] objects[i].children.contains(
            other,
        ) implies after[i].children.contains(other) by {
        if i == at {
            assert(after[i].children == thinner);
        }
    }
}

/// The identifiers of a list from position `from` on.
pub open spec fn ids_from(ids: Seq<SceneObjectId>, from: nat) -> Set<SceneObjectId> {
    Set::new(|id: SceneObjectId| exists|k: int| from <= k < ids.len() && #[trigger] ids[k] == id)
}

/// `now` is one of the objects, and not the one at `position`.
pub open spec fn is_another<C>(objects: Seq<ObjectView<C>>, position: int, now: ObjectView<C>) -> bool {
    exists|m: int| 0 <= m < objects.len() && m != position && now == #[trigger] objects[m]
}

/// Taking one object out of objects with unique identifiers leaves the
/// others as they are, and the identifier of the one is no longer found.
pub proof fn lemma_taken_out<C>(objects: Seq<ObjectView<C>>, position: int)
    requires
        ids_unique(objects),
        0 <= position < objects.len(),
    ensures
        ids_unique(swap_removed(objects, position)),
        left_from(objects, swap_removed(objects, position)),
        !present(swap_removed(objects, position), objects[position].id),
        forall|j: int|
            0 <= j < objects.len() - 1 ==> is_another(
                objects,
                position,
                #[trigger] swap_removed(objects, position)[j],
            ),
        forall|m: int|
            0 <= m < objects.len() && m != position ==> present(
                swap_removed(objects, position),
                (#[trigger] objects[m]).id,
            ),
{
    let left = swap_removed(objects, position);
    let last = objects.len() - 1;
    lemma_swap_removed(objects, position);
    assert forall|j: int| 0 <= j < objects.len() - 1 implies is_another(
        objects,
        position,
        #[trigger] left[j],
    ) by {
        let m = if j == position {
            last
        } else {
            j
        };
        assert(left[j] == objects[m]);
    }
    assert forall|i: int, j: int| 0 <= i < j < left.len() implies (#[trigger] left[i]).id != (
    #[trigger] left[j]).id by {
        let mi = if i == position {
            last
        } else {
            i
        };
        let mj = if j == position {
            last
        } else {
            j
        };
        assert(left[i] == objects[mi] && left[j] == objects[mj]);
        if mi < mj {
            assert(objects[mi].id != objects[mj].id);
        } else {
            assert(objects[mj].id != objects[mi].id);
        }
    }
    assert forall|j: int| 0 <= j < left.len() implies came_from(objects, #[trigger] left[j]) by {
        let m = if j == position {
            last
        } else {
            j
        };
        assert(thinned(objects[m], left[j]));
    }
    if present(left, objects[position].id) {
        let j = choose|j: int| 0 <= j < left.len() && (#[trigger] left[j]).id == objects[position].id;
        let m = if j == position {
            last
        } else {
            j
        };
        assert(left[j] == objects[m]);
        if m < position {
            assert(objects[m].id != objects[position].id);
        } else {
            assert(objects[position].id != objects[m].id);
        }
    }
    assert forall|m: int| 0 <= m < objects.len() && m != position implies present(
        left,
        (#[trigger] objects[m]).id,
    ) by {
        let j = if m == last {
            position
        } else {
            m
        };
        assert(left[j].id == objects[m].id);
    }
}

/// Where objects with unique identifiers are removed one after the other,
/// each with all below it, what is left is the objects that stood below none
/// of them, with nothing changed but entries of removed objects taken from
/// the lists of children.
pub proof fn lemma_removal_of_all_removes_below<C>(
    objects: Seq<ObjectView<C>>,
    ids: Seq<SceneObjectId>,
    from: nat,
    budget: nat,
)
    requires
        ids_unique(objects),
        removal_of_all(objects, ids, from, budget).1,
    ensures
        removed_below(objects, removal_of_all(objects, ids, from, budget).0, ids_from(ids, from)),
    decreases budget, 1nat, ids.len() - from,
{
    if from >= ids.len() {
        lemma_removed_nothing(objects);
        assert(ids_from(ids, from) =~= Set::<SceneObjectId>::empty());
    } else {
        let next = removal(objects, ids[from as int], budget).0;
        lemma_removal_removes_below(objects, ids[from as int], budget);
        lemma_removal_of_all_removes_below(next, ids, from + 1, budget);
        let left = removal_of_all(next, ids, from + 1, budget).0;
        lemma_removed_below_twice(
            objects,
            next,
            left,
            set![ids[from as int]],
            ids_from(ids, from + 1),
        );
        assert(set![ids[from as int]].union(ids_from(ids, from + 1)) =~= ids_from(ids, from)) by {
            assert forall|id: SceneObjectId| ids_from(ids, from).contains(id) implies set![ids[from as int]].union(
                ids_from(ids, from + 1),
            ).contains(id) by {
                let k = choose|k: int| from <= k < ids.len() && #[trigger] ids[k] == id;
                if k != from {
                    assert(from + 1 <= k < ids.len() && ids[k] == id);
                }
            }
            assert forall|id: SceneObjectId| set![ids[from as int]].union(
                ids_from(ids, from + 1),
            ).contains(id) implies ids_from(ids, from).contains(id) by {
                if id == ids[from as int] {
                    assert(from <= from < ids.len() && ids[from as int] == id);
                } else {
                    let k = choose|k: int| from + 1 <= k < ids.len() && #[trigger] ids[k] == id;
                    assert(from <= k < ids.len() && ids[k] == id);
                }
            }
        }
    }
}

/// `detached` is `objects` with nothing changed but the entry `id` taken
/// from a list of children.
pub open spec fn detached_from<C>(
    objects: Seq<ObjectView<C>>,
    detached: Seq<ObjectView<C>>,
    id: SceneObjectId,
) -> bool {
    &&& detached.len() == objects.len()
    &&& forall|i: int| 0 <= i < objects.len() ==> thinned(objects[i], #[trigger] detached[i])
    &&& forall|i: int, other: SceneObjectId|
        0 <= i < objects.len() && other != id && #[trigger] objects[i].children.contains(other)
            ==> detached[i].children.contains(other)
}

/// The steps of a removal that went through: the object is taken from the
/// list of its parent, its children are removed, and it is taken out itself.
pub open spec fn removal_steps<C>(
    objects: Seq<ObjectView<C>>,
    detached: Seq<ObjectView<C>>,
    pruned: Seq<ObjectView<C>>,
    id: SceneObjectId,
) -> bool {
    &&& ids_unique(objects)
    &&& position_of(objects, id) is Some
    &&& detached_from(objects, detached, id)
    &&& removed_below(
        detached,
        pruned,
        ids_from(objects[position_of(objects, id)->0].children, 0),
    )
    &&& position_of(pruned, id) is Some
}

/// What is detached has unique identifiers and is left from the objects.
pub proof fn lemma_detached<C>(
    objects: Seq<ObjectView<C>>,
    detached: Seq<ObjectView<C>>,
    id: SceneObjectId,
)
    requires
        ids_unique(objects),
        detached_from(objects, detached, id),
    ensures
        ids_unique(detached),
        left_from(objects, detached),
        forall|x: SceneObjectId| present(objects, x) ==> #[trigger] present(detached, x),
{
    assert forall|i: int, j: int| 0 <= i < j < detached.len() implies (#[trigger] detached[i]).id != (
    #[trigger] detached[j]).id by {
        assert(thinned(objects[i], detached[i]) && thinned(objects[j], detached[j]));
        assert(objects[i].id != objects[j].id);
    }
    assert forall|j: int| 0 <= j < detached.len() implies came_from(objects, #[trigger] detached[j]) by {
        assert(thinned(objects[j], detached[j]));
    }
    assert forall|x: SceneObjectId| present(objects, x) implies #[trigger] present(detached, x) by {
        let i = choose|i: int| 0 <= i < objects.len() && (#[trigger] objects[i]).id == x;
        assert(thinned(objects[i], detached[i]));
        assert(detached[i].id == x);
    }
}

/// Whatever but the object itself is not found in the end was not found
/// when its children were removed.
pub proof fn lemma_gone_before_the_last_step<C>(
    pruned: Seq<ObjectView<C>>,
    id: SceneObjectId,
    x: SceneObjectId,
)
    requires
        ids_unique(pruned),
        position_of(pruned, id) is Some,
        x != id,
        !present(swap_removed(pruned, position_of(pruned, id)->0), x),
    ensures
        !present(pruned, x),
{
    lemma_position_of(pruned, id);
    let last = position_of(pruned, id)->0;
    lemma_taken_out(pruned, last);
    if present(pruned, x) {
        let m = choose|m: int| 0 <= m < pruned.len() && (#[trigger] pruned[m]).id == x;
        assert(m != last);
        assert(present(swap_removed(pruned, last), pruned[m].id));
    }
}

/// After the steps of a removal, whatever is no longer found stood below
/// the object.
pub proof fn lemma_steps_remove_only_below<C>(
    objects: Seq<ObjectView<C>>,
    detached: Seq<ObjectView<C>>,
    pruned: Seq<ObjectView<C>>,
    id: SceneObjectId,
)
    requires
        removal_steps(objects, detached, pruned, id),
    ensures
        only_below_gone(objects, swap_removed(pruned, position_of(pruned, id)->0), set![id]),
{
    lemma_position_of(objects, id);
    let at = position_of(objects, id)->0;
    let children = objects[at].children;
    let tops = ids_from(children, 0);
    let left = swap_removed(pruned, position_of(pruned, id)->0);
    lemma_detached(objects, detached, id);
    assert forall|x: SceneObjectId| present(objects, x) && !#[trigger] present(left, x) implies exists|
        top: SceneObjectId,
    | set![id].contains(top) && #[trigger] below(objects, top, x) by {
        if x == id {
            assert(below_within(objects, id, x, 0));
            assert(below(objects, id, x));
        } else {
            lemma_gone_before_the_last_step(pruned, id, x);
            assert(present(detached, x));
            let top = choose|top: SceneObjectId|
                tops.contains(top) && #[trigger] below(detached, top, x);
            let steps = choose|steps: nat| #[trigger] below_within(detached, top, x, steps);
            lemma_below_was_below(objects, detached, top, x, steps);
            assert(below(objects, top, x));
            let k = choose|k: int| 0 <= k < children.len() && #[trigger] children[k] == top;
            assert(objects[at].children.contains(top));
            assert(lists(objects, id, top));
            lemma_below_one_more(objects, id, top, x);
        }
        assert(set![id].contains(id));
    }
}

/// After the steps of a removal, what an object listed that is no longer
/// found is no longer found either.
pub proof fn lemma_steps_remove_children<C>(
    objects: Seq<ObjectView<C>>,
    detached: Seq<ObjectView<C>>,
    pruned: Seq<ObjectView<C>>,
    id: SceneObjectId,
)
    requires
        removal_steps(objects, detached, pruned, id),
    ensures
        gone_with_children(objects, swap_removed(pruned, position_of(pruned, id)->0)),
{
    lemma_position_of(objects, id);
    lemma_position_of(pruned, id);
    let at = position_of(objects, id)->0;
    let children = objects[at].children;
    let tops = ids_from(children, 0);
    let last = position_of(pruned, id)->0;
    let left = swap_removed(pruned, last);
    lemma_taken_out(pruned, last);
    assert forall|x: SceneObjectId, child: SceneObjectId|
        !present(left, x) && #[trigger] lists(objects, x, child) implies !present(left, child) by {
        let i = choose|i: int|
            0 <= i < objects.len() && (#[trigger] objects[i]).id == x && objects[i].children.contains(
                child,
            );
        if child == id {
        } else if x == id {
            if i < at {
                assert(objects[i].id != objects[at].id);
            } else if at < i {
                assert(objects[at].id != objects[i].id);
            }
            let k = choose|k: int| 0 <= k < children.len() && children[k] == child;
            assert(0 <= k < children.len() && children[k] == child);
            assert(tops.contains(child));
            assert(!present(pruned, child));
            lemma_gone_stays_gone(pruned, left, child);
        } else {
            lemma_gone_before_the_last_step(pruned, id, x);
            assert(objects[i].children.contains(child));
            assert(thinned(objects[i], detached[i]));
            assert(detached[i].children.contains(child));
            assert(detached[i].id == x);
            assert(lists(detached, x, child));
            assert(!present(pruned, child));
            lemma_gone_stays_gone(pruned, left, child);
        }
    }
}

/// After the steps of a removal, an entry that an object no longer lists
/// names an object that is no longer found.
pub proof fn lemma_steps_lose_entries_of_the_gone<C>(
    objects: Seq<ObjectView<C>>,
    detached: Seq<ObjectView<C>>,
    pruned: Seq<ObjectView<C>>,
    id: SceneObjectId,
)
    requires
        removal_steps(objects, detached, pruned, id),
    ensures
        lost_entries_gone(objects, swap_removed(pruned, position_of(pruned, id)->0)),
{
    lemma_position_of(pruned, id);
    let last = position_of(pruned, id)->0;
    let left = swap_removed(pruned, last);
    lemma_taken_out(pruned, last);
    assert forall|i: int, j: int, child: SceneObjectId|
        0 <= i < objects.len() && 0 <= j < left.len() && (#[trigger] left[j]).id == (
        #[trigger] objects[i]).id && #[trigger] objects[i].children.contains(
            child,
        ) implies left[j].children.contains(child) || !present(left, child) by {
        if child != id {
            assert(is_another(pruned, last, left[j]));
            let m = choose|m: int|
                0 <= m < pruned.len() && m != last && left[j] == #[trigger] pruned[m];
            assert(thinned(objects[i], detached[i]));
            assert(detached[i].children.contains(child));
            assert(pruned[m].id == detached[i].id && detached[i].children.contains(child));
            if !pruned[m].children.contains(child) {
                assert(!present(pruned, child));
                lemma_gone_stays_gone(pruned, left, child);
            }
        }
    }
}

/// The steps of a removal remove the object with all below it.
pub proof fn lemma_steps_remove_below<C>(
    objects: Seq<ObjectView<C>>,
    detached: Seq<ObjectView<C>>,
    pruned: Seq<ObjectView<C>>,
    id: SceneObjectId,
)
    requires
        removal_steps(objects, detached, pruned, id),
    ensures
        removed_below(objects, swap_removed(pruned, position_of(pruned, id)->0), set![id]),
{
    lemma_position_of(pruned, id);
    let last = position_of(pruned, id)->0;
    let left = swap_removed(pruned, last);
    lemma_taken_out(pruned, last);
    lemma_detached(objects, detached, id);
    lemma_left_from_twice(objects, detached, pruned);
    lemma_left_from_twice(objects, pruned, left);
    lemma_steps_remove_only_below(objects, detached, pruned, id);
    lemma_steps_remove_children(objects, detached, pruned, id);
    lemma_steps_lose_entries_of_the_gone(objects, detached, pruned, id);
    assert forall|top: SceneObjectId| set![id].contains(top) implies !#[trigger] present(
        left,
        top,
    ) by {
        assert(top == id);
    }
}

/// What a removal that went through leaves of objects with unique
/// identifiers: the object and all that stood below it are no longer found;
/// every other object is still there, with its name, identifier, parent and
/// components; and a list of children has lost only entries of objects that
/// are no longer found.
pub proof fn lemma_removal_removes_below<C>(
    objects: Seq<ObjectView<C>>,
    id: SceneObjectId,
    budget: nat,
)
    requires
        ids_unique(objects),
        removal(objects, id, budget).1,
    ensures
        removed_below(objects, removal(objects, id, budget).0, set![id]),
    decreases budget, 0nat, 0nat,
{
    lemma_position_of(objects, id);
    let at = position_of(objects, id)->0;
    let parent_id = objects[at].parent_id;
    let children = objects[at].children;
    let detached = if parent_id != empty_id() {
        without_child(objects, parent_id, id)->0
    } else {
        objects
    };
    if parent_id != empty_id() {
        lemma_without_child(objects, parent_id, id);
    }
    assert(detached_from(objects, detached, id)) by {
        assert forall|i: int| 0 <= i < objects.len() implies thinned(
            objects[i],
            #[trigger] detached[i],
        ) by {}
    }
    lemma_detached(objects, detached, id);
    let pruned = removal_of_all(detached, children, 0, (budget - 1) as nat).0;
    lemma_removal_of_all_removes_below(detached, children, 0, (budget - 1) as nat);
    assert(removal(objects, id, budget).0 == swap_removed(pruned, position_of(pruned, id)->0));
    lemma_steps_remove_below(objects, detached, pruned, id);
}

/// Where an object is no longer found and whatever a lost object listed is
/// lost with it, all that stood below the object is no longer found.
pub proof fn lemma_below_is_gone<C>(
    before: Seq<ObjectView<C>>,
    after: Seq<ObjectView<C>>,
    top: SceneObjectId,
    x: SceneObjectId,
    steps: nat,
)
    requires
        gone_with_children(before, after),
        !present(after, top),
        below_within(before, top, x, steps),
    ensures
        !present(after, x),
    decreases steps,
{
    if x != top {
        let middle = choose|middle: SceneObjectId|
            #[trigger] lists(before, top, middle) && below_within(
                before,
                middle,
                x,
                (steps - 1) as nat,
            );
        lemma_below_is_gone(before, after, middle, x, (steps - 1) as nat);
    }
}

/// What a removal that went through leaves of a scene in which no two
/// objects have one identifier.  The object and all that stood below it are
/// no longer found.  Every other object is still found, and is as it was
/// but for its list of children, from which only entries of objects that are
/// no longer found were taken.  No two objects that are left have one
/// identifier.
pub proof fn lemma_removal_leaves_the_rest<C>(
    objects: Seq<ObjectView<C>>,
    id: SceneObjectId,
    budget: nat,
)
    requires
        ids_unique(objects),
        removal(objects, id, budget).1,
    ensures
        ({
            let left = removal(objects, id, budget).0;
            &&& ids_unique(left)
            &&& forall|x: SceneObjectId| #[trigger]
                below(objects, id, x) ==> !present(left, x)
            &&& forall|x: SceneObjectId|
                present(objects, x) && !below(objects, id, x) ==> #[trigger] present(left, x)
            &&& left_from(objects, left)
            &&& lost_entries_gone(objects, left)
        }),
{
    let left = removal(objects, id, budget).0;
    lemma_removal_removes_below(objects, id, budget);
    assert(set![id].contains(id));
    assert forall|x: SceneObjectId| #[trigger] below(objects, id, x) implies !present(left, x) by {
        let steps = choose|steps: nat| #[trigger] below_within(objects, id, x, steps);
        lemma_below_is_gone(objects, left, id, x, steps);
    }
    assert forall|x: SceneObjectId|
        present(objects, x) && !below(objects, id, x) implies #[trigger] present(left, x) by {
        if !present(left, x) {
            let top = choose|top: SceneObjectId|
                set![id].contains(top) && #[trigger] below(objects, top, x);
            assert(top == id);
        }
    }
}

} // verus!
