//! What holds of the registry across several operations.

use vstd::prelude::*;

use super::commands::IStateCommand;
use super::state_manager::StateHandle;
use super::state_manager::enumerates;
use super::state_manager::restores;
use super::state_manager::undone_in_order;
use super::state_manager::walks;

verus! {

/// Whether undoing `first` and then `second` can always be replayed as
/// undoing `second` and then `first`, between the same two contexts.
pub open spec fn commutes<C: IStateCommand<Ctx>, Ctx>(first: C, second: C) -> bool {
    forall|start: Ctx, mid: Ctx, end: Ctx|
        #![trigger first.undoes(start, mid), second.undoes(mid, end)]
        first.undoes(start, mid) && second.undoes(mid, end) ==> exists|other: Ctx|
            #![trigger second.undoes(start, other), first.undoes(other, end)]
            second.undoes(start, other) && first.undoes(other, end)
}

/// Whether the commands under any two keys of `changes` commute: each
/// reverses a piece of state that the others leave alone.
pub open spec fn independent<C: IStateCommand<Ctx>, Ctx>(changes: Map<u16, C>) -> bool {
    forall|one: u16, other: u16|
        #![trigger changes[one], changes[other]]
        changes.contains_key(one) && changes.contains_key(other) && one != other ==> commutes::<
            C,
            Ctx,
        >(changes[one], changes[other])
}

/// Whether every command of `changes` leaves exactly one context for each
/// context it starts from.
pub open spec fn deterministic<C: IStateCommand<Ctx>, Ctx>(changes: Map<u16, C>) -> bool {
    forall|key: u16, start: Ctx, one: Ctx, other: Ctx|
        #![trigger changes[key].undoes(start, one), changes[key].undoes(start, other)]
        changes.contains_key(key) && changes[key].undoes(start, one) && changes[key].undoes(
            start,
            other,
        ) ==> one == other
}

/// A key without a registered change reverses nothing: the handle that a
/// lookup gives for it leaves every context as it finds it.
pub proof fn lemma_unregistered_handle_reverses_nothing<'a, C: IStateCommand<Ctx>, Ctx>(
    handle: StateHandle<'a, C>,
    before: Ctx,
    after: Ctx,
)
    requires
        handle is Unregistered,
    ensures
        handle.undoes(before, after) <==> after == before,
{
}

/// Last write wins: after two registrations under one key the registry is as
/// if only the second had been made, and the key holds the second command.
pub proof fn lemma_last_registration_wins<C>(changes: Map<u16, C>, key: u16, first: C, second: C)
    ensures
        changes.insert(key, first).insert(key, second) == changes.insert(key, second),
        changes.insert(key, first).insert(key, second).contains_key(key),
        changes.insert(key, first).insert(key, second)[key] == second,
{
    assert(changes.insert(key, first).insert(key, second) =~= changes.insert(key, second));
}

/// Registering under a key that held no change raises the number of changes
/// by one; registering under a key that held one leaves the number.
pub proof fn lemma_registration_counts<C>(changes: Map<u16, C>, key: u16, change: C)
    requires
        changes.dom().finite(),
    ensures
        changes.insert(key, change).dom().finite(),
        changes.insert(key, change).len() == if changes.contains_key(key) {
            changes.len()
        } else {
            changes.len() + 1
        },
{
}

/// Registrations under different keys can be made in either order: the
/// registry is the same, and so is every outcome of restoring it.
pub proof fn lemma_registration_order_irrelevant<C: IStateCommand<Ctx>, Ctx>(
    changes: Map<u16, C>,
    key: u16,
    change: C,
    other_key: u16,
    other_change: C,
    before: Ctx,
    after: Ctx,
)
    requires
        key != other_key,
    ensures
        changes.insert(key, change).insert(other_key, other_change) == changes.insert(
            other_key,
            other_change,
        ).insert(key, change),
        restores(changes.insert(key, change).insert(other_key, other_change), before, after)
            == restores(changes.insert(other_key, other_change).insert(key, change), before, after),
{
    assert(changes.insert(key, change).insert(other_key, other_change) =~= changes.insert(
        other_key,
        other_change,
    ).insert(key, change));
}

/// Restoring undoes as many commands as there are registered keys: one for
/// each.
pub proof fn lemma_one_undo_per_change<C: IStateCommand<Ctx>, Ctx>(
    changes: Map<u16, C>,
    order: Seq<u16>,
    trace: Seq<Ctx>,
)
    requires
        undone_in_order(changes, order, trace),
    ensures
        order.len() == changes.dom().len(),
        trace.len() == changes.dom().len() + 1,
        forall|key: u16| changes.contains_key(key) <==> order.contains(key),
{
    order.unique_seq_to_set();
    assert forall|key: u16| changes.contains_key(key) <==> order.contains(key) by {
        assert(order.to_set().contains(key) <==> order.contains(key));
    }
}

/// The walk that undoes the command at position `at` one place later than
/// `trace` does, and the one after it one place earlier.
proof fn lemma_swap_neighbours<C: IStateCommand<Ctx>, Ctx>(
    changes: Map<u16, C>,
    order: Seq<u16>,
    trace: Seq<Ctx>,
    at: int,
) -> (swapped: Seq<Ctx>)
    requires
        walks(changes, order, trace),
        0 <= at < order.len() - 1,
        commutes::<C, Ctx>(changes[order[at]], changes[order[at + 1]]),
    ensures
        walks(changes, order.update(at, order[at + 1]).update(at + 1, order[at]), swapped),
        swapped[0] == trace[0],
        swapped.last() == trace.last(),
{
    let first = changes[order[at]];
    let second = changes[order[at + 1]];
    assert(first.undoes(trace[at], trace[at + 1]));
    assert(second.undoes(trace[at + 1], trace[at + 1 + 1]));
    let other = choose|other: Ctx|
        #![trigger second.undoes(trace[at], other), first.undoes(other, trace[at + 2])]
        second.undoes(trace[at], other) && first.undoes(other, trace[at + 2]);
    let swapped = trace.update(at + 1, other);
    let reordered = order.update(at, order[at + 1]).update(at + 1, order[at]);
    assert forall|i: int| 0 <= i < reordered.len() implies changes[#[trigger] reordered[i]].undoes(
        swapped[i],
        swapped[i + 1],
    ) by {
        if i != at && i != at + 1 {
            assert(reordered[i] == order[i]);
        }
    }
    swapped
}

/// The walk that undoes the command at position `at` last, and the others in
/// the order they had.
proof fn lemma_move_to_end<C: IStateCommand<Ctx>, Ctx>(
    changes: Map<u16, C>,
    order: Seq<u16>,
    trace: Seq<Ctx>,
    at: int,
) -> (moved: Seq<Ctx>)
    requires
        walks(changes, order, trace),
        order.no_duplicates(),
        0 <= at < order.len(),
        forall|i: int, j: int|
            0 <= i < order.len() && 0 <= j < order.len() && i != j ==> commutes::<C, Ctx>(
                changes[#[trigger] order[i]],
                changes[#[trigger] order[j]],
            ),
    ensures
        walks(changes, order.remove(at).push(order[at]), moved),
        moved[0] == trace[0],
        moved.last() == trace.last(),
    decreases order.len() - at,
{
    if at == order.len() - 1 {
        assert(order.remove(at).push(order[at]) =~= order);
        trace
    } else {
        let reordered = order.update(at, order[at + 1]).update(at + 1, order[at]);
        let swapped = lemma_swap_neighbours(changes, order, trace, at);
        assert(reordered.no_duplicates());
        assert forall|i: int, j: int|
            0 <= i < reordered.len() && 0 <= j < reordered.len() && i != j implies commutes::<
            C,
            Ctx,
        >(changes[#[trigger] reordered[i]], changes[#[trigger] reordered[j]]) by {
            let from = |i: int|
                if i == at {
                    at + 1
                } else if i == at + 1 {
                    at
                } else {
                    i
                };
            assert(reordered[i] == order[from(i)]);
            assert(reordered[j] == order[from(j)]);
        }
        let moved = lemma_move_to_end(changes, reordered, swapped, at + 1);
        assert(reordered.remove(at + 1).push(reordered[at + 1]) =~= order.remove(at).push(
            order[at],
        ));
        moved
    }
}

/// The walk over the keys of `order`, taken in the order `target`.
proof fn lemma_reorder<C: IStateCommand<Ctx>, Ctx>(
    changes: Map<u16, C>,
    order: Seq<u16>,
    trace: Seq<Ctx>,
    target: Seq<u16>,
) -> (reordered: Seq<Ctx>)
    requires
        walks(changes, order, trace),
        order.no_duplicates(),
        target.no_duplicates(),
        order.to_set() == target.to_set(),
        forall|i: int, j: int|
            0 <= i < order.len() && 0 <= j < order.len() && i != j ==> commutes::<C, Ctx>(
                changes[#[trigger] order[i]],
                changes[#[trigger] order[j]],
            ),
    ensures
        walks(changes, target, reordered),
        reordered[0] == trace[0],
        reordered.last() == trace.last(),
    decreases order.len(),
{
    order.unique_seq_to_set();
    target.unique_seq_to_set();
    if target.len() == 0 {
        trace
    } else {
        let key = target.last();
        assert(target.to_set().contains(key));
        assert(order.contains(key));
        let at = order.index_of(key);
        let moved = lemma_move_to_end(changes, order, trace, at);
        let rest = order.remove(at);
        let goal = target.drop_last();
        assert(rest.push(key).drop_last() =~= rest);
        assert(rest.no_duplicates());
        assert(goal.no_duplicates());
        assert(rest.to_set() =~= goal.to_set()) by {
            assert forall|k: u16| rest.to_set().contains(k) <==> goal.to_set().contains(k) by {
                if rest.contains(k) {
                    let i = choose|i: int| 0 <= i < rest.len() && rest[i] == k;
                    let from = if i < at {
                        i
                    } else {
                        i + 1
                    };
                    assert(order[from] == k);
                    assert(k != key);
                    assert(order.to_set().contains(k));
                    assert(target.contains(k));
                    let j = choose|j: int| 0 <= j < target.len() && target[j] == k;
                    assert(goal[j] == k);
                }
                if goal.contains(k) {
                    let j = choose|j: int| 0 <= j < goal.len() && goal[j] == k;
                    assert(target[j] == k);
                    assert(k != key);
                    assert(target.to_set().contains(k));
                    assert(order.contains(k));
                    let i = choose|i: int| 0 <= i < order.len() && order[i] == k;
                    let to = if i < at {
                        i
                    } else {
                        i - 1
                    };
                    assert(rest[to] == k);
                }
            }
        }
        let head = moved.drop_last();
        assert(walks(changes, rest, head)) by {
            assert forall|i: int| 0 <= i < rest.len() implies changes[#[trigger] rest[i]].undoes(
                head[i],
                head[i + 1],
            ) by {
                assert(rest.push(key)[i] == rest[i]);
            }
        }
        assert forall|i: int, j: int|
            0 <= i < rest.len() && 0 <= j < rest.len() && i != j implies commutes::<C, Ctx>(
            changes[#[trigger] rest[i]],
            changes[#[trigger] rest[j]],
        ) by {
            let from = |i: int|
                if i < at {
                    i
                } else {
                    i + 1
                };
            assert(rest[i] == order[from(i)]);
            assert(rest[j] == order[from(j)]);
        }
        let front = lemma_reorder(changes, rest, head, goal);
        let reordered = front.push(trace.last());
        assert(walks(changes, target, reordered)) by {
            assert forall|i: int| 0 <= i < target.len() implies changes[#[trigger] target[i]].undoes(
                reordered[i],
                reordered[i + 1],
            ) by {
                if i < goal.len() {
                    assert(goal[i] == target[i]);
                } else {
                    assert(rest.push(key)[rest.len() as int] == key);
                }
            }
        }
        reordered
    }
}

/// Order-independence of restoring: where the registered commands are
/// independent of each other, whatever restoring reaches in one order of the
/// keys it reaches in every other order. The result is a walk in the order
/// `other_order` between the contexts that `trace` starts and ends with.
pub proof fn lemma_restore_order_irrelevant<C: IStateCommand<Ctx>, Ctx>(
    changes: Map<u16, C>,
    order: Seq<u16>,
    trace: Seq<Ctx>,
    other_order: Seq<u16>,
) -> (other_trace: Seq<Ctx>)
    requires
        independent::<C, Ctx>(changes),
        undone_in_order(changes, order, trace),
        enumerates(changes, other_order),
    ensures
        undone_in_order(changes, other_order, other_trace),
        other_trace[0] == trace[0],
        other_trace.last() == trace.last(),
{
    assert forall|i: int, j: int|
        0 <= i < order.len() && 0 <= j < order.len() && i != j implies commutes::<C, Ctx>(
        changes[#[trigger] order[i]],
        changes[#[trigger] order[j]],
    ) by {
        assert(order.to_set().contains(order[i]));
        assert(order.to_set().contains(order[j]));
    }
    lemma_reorder(changes, order, trace, other_order)
}

/// Two walks in the same order from the same context end in the same
/// context, where each command leaves one outcome only.
proof fn lemma_same_order_same_end<C: IStateCommand<Ctx>, Ctx>(
    changes: Map<u16, C>,
    order: Seq<u16>,
    one: Seq<Ctx>,
    other: Seq<Ctx>,
    upto: int,
)
    requires
        deterministic::<C, Ctx>(changes),
        undone_in_order(changes, order, one),
        undone_in_order(changes, order, other),
        one[0] == other[0],
        0 <= upto <= order.len(),
    ensures
        one[upto] == other[upto],
    decreases upto,
{
    if upto > 0 {
        lemma_same_order_same_end(changes, order, one, other, upto - 1);
        let key = order[upto - 1];
        assert(order.to_set().contains(key));
        assert(changes[key].undoes(one[upto - 1], one[upto - 1 + 1]));
        assert(changes[key].undoes(other[upto - 1], other[upto - 1 + 1]));
    }
}

/// Where the registered commands are independent of each other and each
/// leaves one outcome only, restoring has one outcome: the context it ends
/// in does not depend on the order in which the registry is walked.
pub proof fn lemma_restore_has_one_outcome<C: IStateCommand<Ctx>, Ctx>(
    changes: Map<u16, C>,
    before: Ctx,
    after: Ctx,
    other_after: Ctx,
)
    requires
        independent::<C, Ctx>(changes),
        deterministic::<C, Ctx>(changes),
        restores(changes, before, after),
        restores(changes, before, other_after),
    ensures
        after == other_after,
{
    let (order, trace) = choose|order: Seq<u16>, trace: Seq<Ctx>|
        #![trigger undone_in_order(changes, order, trace)]
        undone_in_order(changes, order, trace) && trace[0] == before && trace.last() == after;
    let (other_order, other_trace) = choose|order: Seq<u16>, trace: Seq<Ctx>|
        #![trigger undone_in_order(changes, order, trace)]
        undone_in_order(changes, order, trace) && trace[0] == before && trace.last()
            == other_after;
    let replayed = lemma_restore_order_irrelevant(changes, order, trace, other_order);
    lemma_same_order_same_end(
        changes,
        other_order,
        replayed,
        other_trace,
        other_order.len() as int,
    );
}

} // verus!
