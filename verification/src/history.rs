//! What holds of a store over whole histories of operations.

use crate::models::status::Status;
use crate::models::store::{lemma_operations_keep_wf, StoreView};
use crate::models::timestamp::Timestamp;
use vstd::prelude::*;

verus! {

/// One mutating operation on a store, with the instant it is dated.
pub ghost enum Op {
    Add(Seq<char>, Timestamp),
    Update(nat, Seq<char>, Timestamp),
    Delete(nat),
    Mark(nat, Status, Timestamp),
}

/// The store after one operation.
pub open spec fn apply(store: StoreView, op: Op) -> StoreView {
    match op {
        Op::Add(description, at) => store.add_task(description, at),
        Op::Update(id, description, at) => store.update_task(id, description, at),
        Op::Delete(id) => store.delete_task(id),
        Op::Mark(id, status, at) => store.mark_task(id, status, at),
    }
}

/// The store after a history of operations, the first one first.
pub open spec fn run(store: StoreView, ops: Seq<Op>) -> StoreView
    decreases ops.len(),
{
    if ops.len() == 0 {
        store
    } else {
        apply(run(store, ops.drop_last()), ops.last())
    }
}

/// How many tasks a history adds.
pub open spec fn additions(ops: Seq<Op>) -> nat
    decreases ops.len(),
{
    if ops.len() == 0 {
        0
    } else {
        additions(ops.drop_last()) + if ops.last() is Add {
            1nat
        } else {
            0nat
        }
    }
}

/// One operation keeps every identifier at or below the highest one handed
/// out, and never lowers that one.
pub proof fn lemma_apply_keeps_wf(store: StoreView, op: Op)
    requires
        store.wf(),
    ensures
        apply(store, op).wf(),
        apply(store, op).max_task_id >= store.max_task_id,
        apply(store, op).path == store.path,
{
    match op {
        Op::Add(description, at) => lemma_operations_keep_wf(store, 0, description, Status::ToDo, at),
        Op::Update(id, description, at) => lemma_operations_keep_wf(
            store,
            id,
            description,
            Status::ToDo,
            at,
        ),
        Op::Delete(id) => lemma_operations_keep_wf(
            store,
            id,
            Seq::empty(),
            Status::ToDo,
            Timestamp { secs: 0, nanos: 0 },
        ),
        Op::Mark(id, status, at) => lemma_operations_keep_wf(store, id, Seq::empty(), status, at),
    }
}

/// One operation on a store whose identifiers are all different leaves them
/// all different.
pub proof fn lemma_apply_keeps_ids_distinct(store: StoreView, op: Op)
    requires
        store.wf(),
        store.ids_distinct(),
    ensures
        apply(store, op).ids_distinct(),
{
    let next = apply(store, op);
    assert forall|i: int, j: int| 0 <= i < j < next.tasks.len() implies (#[trigger] next.tasks[i]).id
        != (#[trigger] next.tasks[j]).id by {
        match op {
            Op::Add(description, at) => {
                assert(next.tasks[i] == store.tasks[i]);
                if j < store.tasks.len() {
                    assert(next.tasks[j] == store.tasks[j]);
                }
            },
            Op::Update(id, description, at) => {
                if store.contains_id(id) {
                    assert(next.tasks[i].id == store.tasks[i].id);
                    assert(next.tasks[j].id == store.tasks[j].id);
                }
            },
            Op::Delete(id) => {
                if store.contains_id(id) {
                    let p = store.position(id);
                    let before_i = if i < p {
                        i
                    } else {
                        i + 1
                    };
                    let before_j = if j < p {
                        j
                    } else {
                        j + 1
                    };
                    assert(next.tasks[i] == store.tasks[before_i]);
                    assert(next.tasks[j] == store.tasks[before_j]);
                }
            },
            Op::Mark(id, status, at) => {
                if store.contains_id(id) {
                    assert(next.tasks[i].id == store.tasks[i].id);
                    assert(next.tasks[j].id == store.tasks[j].id);
                }
            },
        }
    }
}

/// Identifiers count up by one: after any history, whatever it updates,
/// marks or deletes in between, the highest identifier handed out has grown
/// by exactly the number of tasks added, and each added task received the
/// successor of the one handed out before it.
pub proof fn law_ids_count_up(store: StoreView, ops: Seq<Op>)
    ensures
        run(store, ops).max_task_id == store.max_task_id + additions(ops),
        forall|description: Seq<char>, at: Timestamp|
            #![trigger run(store, ops.push(Op::Add(description, at)))]
            run(store, ops.push(Op::Add(description, at))).tasks.last().id == store.max_task_id
                + additions(ops) + 1,
    decreases ops.len(),
{
    if ops.len() > 0 {
        law_ids_count_up(store, ops.drop_last());
    }
    assert forall|description: Seq<char>, at: Timestamp|
        #![trigger run(store, ops.push(Op::Add(description, at)))]
        run(store, ops.push(Op::Add(description, at))).tasks.last().id == store.max_task_id
            + additions(ops) + 1 by {
        let longer = ops.push(Op::Add(description, at));
        assert(longer.drop_last() =~= ops);
        assert(longer.last() == Op::Add(description, at));
    }
}

/// In a store that starts empty, the first task added receives 1, the second
/// 2, and so on, whatever is deleted in between: the task added after a
/// history with `n` additions receives `n + 1`.
pub proof fn law_ids_start_at_one(
    path: Seq<char>,
    ops: Seq<Op>,
    description: Seq<char>,
    at: Timestamp,
)
    ensures
        run(StoreView::empty(path), ops).next_id() == additions(ops) + 1,
        run(StoreView::empty(path), ops.push(Op::Add(description, at))).tasks.last().id
            == additions(ops) + 1,
{
    law_ids_count_up(StoreView::empty(path), ops);
}

/// A history keeps every identifier at or below the highest one handed out,
/// keeps distinct identifiers distinct, and never lowers the highest one.
pub proof fn law_run_keeps_wf(store: StoreView, ops: Seq<Op>)
    requires
        store.wf(),
    ensures
        run(store, ops).wf(),
        run(store, ops).max_task_id >= store.max_task_id,
        store.ids_distinct() ==> run(store, ops).ids_distinct(),
    decreases ops.len(),
{
    if ops.len() > 0 {
        let before = run(store, ops.drop_last());
        law_run_keeps_wf(store, ops.drop_last());
        lemma_apply_keeps_wf(before, ops.last());
        if store.ids_distinct() {
            lemma_apply_keeps_ids_distinct(before, ops.last());
        }
    }
}

/// An identifier is never handed out twice. Whatever identifier a task of
/// the store carries, and whatever happens to the store afterwards, the
/// deletion of that task included, every task added later receives a greater
/// one.
pub proof fn law_ids_never_reused(
    store: StoreView,
    i: int,
    ops: Seq<Op>,
    description: Seq<char>,
    at: Timestamp,
)
    requires
        store.wf(),
        0 <= i < store.tasks.len(),
    ensures
        store.tasks[i].id < run(store, ops).next_id(),
        store.tasks[i].id < run(store, ops).add_task(description, at).tasks.last().id,
{
    law_run_keeps_wf(store, ops);
}

/// Deleting a task retires its identifier: in a store whose identifiers are
/// all different, none of the tasks held after the deletion and any further
/// history carries it.
pub proof fn law_deleted_id_stays_out(store: StoreView, id: nat, ops: Seq<Op>, k: int)
    requires
        store.wf(),
        store.ids_distinct(),
        store.contains_id(id),
        0 <= k < run(store.delete_task(id), ops).tasks.len(),
    ensures
        run(store.delete_task(id), ops).tasks[k].id != id,
{
    let gone = store.delete_task(id);
    let p = store.position(id);
    lemma_apply_keeps_wf(store, Op::Delete(id));
    assert forall|n: int| 0 <= n < gone.tasks.len() implies (#[trigger] gone.tasks[n]).id != id by {
        if n < p {
            assert(gone.tasks[n] == store.tasks[n]);
        } else {
            assert(gone.tasks[n] == store.tasks[n + 1]);
            assert(store.tasks[p].id != store.tasks[n + 1].id);
        }
    }
    lemma_absent_id_stays_absent(gone, id, ops, k);
}

/// An identifier that no task carries, and that is not above the highest
/// one handed out, is carried by no task after any history.
pub proof fn lemma_absent_id_stays_absent(
    store: StoreView,
    id: nat,
    ops: Seq<Op>,
    k: int,
)
    requires
        store.wf(),
        id <= store.max_task_id,
        forall|n: int| 0 <= n < store.tasks.len() ==> (#[trigger] store.tasks[n]).id != id,
        0 <= k < run(store, ops).tasks.len(),
    ensures
        run(store, ops).tasks[k].id != id,
    decreases ops.len(),
{
    if ops.len() > 0 {
        let before = run(store, ops.drop_last());
        law_run_keeps_wf(store, ops.drop_last());
        let op = ops.last();
        let next = apply(before, op);
        match op {
            Op::Add(description, at) => {
                if k < before.tasks.len() {
                    assert(next.tasks[k] == before.tasks[k]);
                    lemma_absent_id_stays_absent(store, id, ops.drop_last(), k);
                }
            },
            Op::Update(other, description, at) => {
                assert(next.tasks[k].id == before.tasks[k].id);
                lemma_absent_id_stays_absent(store, id, ops.drop_last(), k);
            },
            Op::Delete(other) => {
                if before.contains_id(other) {
                    let p = before.position(other);
                    if k < p {
                        assert(next.tasks[k] == before.tasks[k]);
                        lemma_absent_id_stays_absent(store, id, ops.drop_last(), k);
                    } else {
                        assert(next.tasks[k] == before.tasks[k + 1]);
                        lemma_absent_id_stays_absent(store, id, ops.drop_last(), k + 1);
                    }
                } else {
                    lemma_absent_id_stays_absent(store, id, ops.drop_last(), k);
                }
            },
            Op::Mark(other, status, at) => {
                assert(next.tasks[k].id == before.tasks[k].id);
                lemma_absent_id_stays_absent(store, id, ops.drop_last(), k);
            },
        }
    }
}

} // verus!
