//! The engine's laws, each proved once and for all over the spec-level
//! effects that the executable operations are specified against: what order
//! creation leaves in the queue, what each status change does to the order's
//! token, what a broadcast delivers, and what a late subscriber can see.

use vstd::prelude::*;
use crate::models::{CreateOrder, Order, OrderItem, OrderStatus, QueueToken, TokenStatus};
use crate::registry::{delivered, has_subscriber, joined, Registry};
use crate::status::{status_name, status_of};
use crate::store::{
    has_order, items_for_order, new_order_items, new_token, orders_with_status, Store,
};

verus! {

/// The queue tokens belonging to one order, in row order.
pub open spec fn tokens_for_order(tokens: Seq<QueueToken>, order_id: i32) -> Seq<QueueToken> {
    tokens.filter(|t: QueueToken| t.order_id == order_id)
}

/// There is a queue token for this order.
pub open spec fn has_token(tokens: Seq<QueueToken>, order_id: i32) -> bool {
    exists|i: int| 0 <= i < tokens.len() && tokens[i].order_id == order_id
}

/// Filtering keeps a sequence whole when every element satisfies the
/// predicate.
proof fn lemma_filter_all<A>(s: Seq<A>, pred: spec_fn(A) -> bool)
    requires
        forall|i: int| 0 <= i < s.len() ==> pred(#[trigger] s[i]),
    ensures
        s.filter(pred) == s,
    decreases s.len(),
{
    reveal(Seq::filter);
    if s.len() > 0 {
        lemma_filter_all(s.drop_last(), pred);
        assert(s.drop_last().push(s.last()) =~= s);
        assert(s.filter(pred) =~= s);
    } else {
        assert(s.filter(pred) =~= s);
    }
}

/// Law: a successful order creation leaves exactly one queue token for the
/// new order - waiting, numbered with the order identifier - and exactly the
/// requested line rows, quantities included.
pub proof fn lemma_create_order_queue_effect(pre: Store, post: Store, req: CreateOrder, now: i64, id: i32)
    requires
        pre.wf(),
        Store::create_order_ok(pre, post, req, now, id),
    ensures
        tokens_for_order(post.tokens@, id) == seq![new_token(pre.next_token_id, id, now)],
        items_for_order(post.order_items@, id) == new_order_items(pre.next_item_id, id, req.items@),
{
    reveal(Seq::filter);
    let tok = new_token(pre.next_token_id, id, now);
    let pred_t = |t: QueueToken| t.order_id == id;
    assert forall|k: int| 0 <= k < pre.tokens@.len()
        implies !pred_t(#[trigger] pre.tokens@[k]) by {
        let j = choose|j: int|
            0 <= j < pre.orders@.len() && pre.orders@[j].id == pre.tokens@[k].order_id;
    }
    pre.tokens@.lemma_all_neg_filter_empty(pred_t);
    assert(post.tokens@ =~= pre.tokens@ + seq![tok]);
    Seq::<QueueToken>::filter_distributes_over_add(pre.tokens@, seq![tok], pred_t);
    assert(seq![tok].drop_last() =~= Seq::<QueueToken>::empty());
    assert(Seq::<QueueToken>::empty().filter(pred_t) =~= Seq::<QueueToken>::empty());
    assert(seq![tok].filter(pred_t) =~= seq![tok]);
    assert(tokens_for_order(post.tokens@, id) =~= seq![tok]);

    let rows = new_order_items(pre.next_item_id, id, req.items@);
    let pred_i = |it: OrderItem| it.order_id == id;
    assert forall|k: int| 0 <= k < pre.order_items@.len()
        implies !pred_i(#[trigger] pre.order_items@[k]) by {
        let j = choose|j: int|
            0 <= j < pre.orders@.len() && pre.orders@[j].id == pre.order_items@[k].order_id;
    }
    pre.order_items@.lemma_all_neg_filter_empty(pred_i);
    lemma_filter_all(rows, pred_i);
    Seq::<OrderItem>::filter_distributes_over_add(pre.order_items@, rows, pred_i);
    assert(items_for_order(post.order_items@, id) =~= rows);
}

/// Law: the queue-token effect of each status change. Setting ready keeps
/// the order's token present and marks it ready; setting completed removes
/// it entirely while every other token stays; the two remaining statuses
/// leave the tokens exactly as they were.
pub proof fn lemma_status_token_effect(pre: Store, post: Store, order_id: i32, st: OrderStatus, now: i64)
    requires
        pre.wf(),
        Store::set_status_ok(pre, post, order_id, st, now),
    ensures
        st == OrderStatus::Ready ==> {
            &&& (has_token(pre.tokens@, order_id) ==> has_token(post.tokens@, order_id))
            &&& forall|k: int| 0 <= k < post.tokens@.len()
                    && (#[trigger] post.tokens@[k]).order_id == order_id
                    ==> post.tokens@[k].status == TokenStatus::Ready
                        && post.tokens@[k].id == pre.tokens@[k].id
                        && post.tokens@[k].order_id == pre.tokens@[k].order_id
                        && post.tokens@[k].token_number == pre.tokens@[k].token_number
                        && post.tokens@[k].created_at == pre.tokens@[k].created_at
            &&& forall|k: int| 0 <= k < post.tokens@.len()
                    && (#[trigger] post.tokens@[k]).order_id != order_id
                    ==> post.tokens@[k] == pre.tokens@[k]
        },
        st == OrderStatus::Completed ==> {
            &&& !has_token(post.tokens@, order_id)
            &&& forall|k: int| 0 <= k < pre.tokens@.len()
                    && (#[trigger] pre.tokens@[k]).order_id != order_id
                    ==> post.tokens@.contains(pre.tokens@[k])
        },
        st == OrderStatus::Pending || st == OrderStatus::Preparing
            ==> post.tokens@ == pre.tokens@,
{
    broadcast use vstd::seq_lib::group_filter_ensures;

    let keep = |t: QueueToken| t.order_id != order_id;
    match st {
        OrderStatus::Ready => {
            if has_token(pre.tokens@, order_id) {
                let k = choose|k: int|
                    0 <= k < pre.tokens@.len() && pre.tokens@[k].order_id == order_id;
                assert(post.tokens@[k].order_id == order_id);
            }
        },
        OrderStatus::Completed => {
            assert forall|k: int| 0 <= k < post.tokens@.len()
                implies (#[trigger] post.tokens@[k]).order_id != order_id by {
                assert(keep(post.tokens@[k]));
            }
            assert forall|k: int|
                0 <= k < pre.tokens@.len() && (#[trigger] pre.tokens@[k]).order_id != order_id
                implies post.tokens@.contains(pre.tokens@[k]) by {
                assert(keep(pre.tokens@[k]));
                pre.tokens@.lemma_filter_contains(keep, k);
            }
        },
        OrderStatus::Pending => {},
        OrderStatus::Preparing => {},
    }
}

/// Law: a status change refreshes the order's updated timestamp to the
/// supplied instant, never lets it regress - so the updated timestamp is
/// monotonically non-decreasing whatever clock value is supplied - and
/// touches no other order.
pub proof fn lemma_status_updates_timestamp(pre: Store, post: Store, order_id: i32, st: OrderStatus, now: i64)
    requires
        pre.wf(),
        Store::set_status_ok(pre, post, order_id, st, now),
    ensures
        forall|j: int| 0 <= j < pre.orders@.len() && (#[trigger] pre.orders@[j]).id == order_id
            ==> post.orders@[j].status == st
                && post.orders@[j].updated_at == (if now >= pre.orders@[j].updated_at {
                    now
                } else {
                    pre.orders@[j].updated_at
                }),
        forall|j: int| 0 <= j < pre.orders@.len()
            ==> (#[trigger] post.orders@[j]).updated_at >= pre.orders@[j].updated_at,
        forall|j: int| 0 <= j < pre.orders@.len() && (#[trigger] pre.orders@[j]).id != order_id
            ==> post.orders@[j] == pre.orders@[j],
{
    assert(post.orders@ == orders_with_status(pre.orders@, order_id, st, now));
}

/// Law: a broadcast delivers the published snapshot to every subscriber
/// connected at that moment, as the newest entry of each inbox. Combined
/// with the operations' own contracts - `create_order` and
/// `update_order_status` publish exactly the mutated store's token rows, and
/// `list_queue` returns exactly those rows - the snapshot every connected
/// viewer receives matches a direct queue read taken right after the
/// mutation.
pub proof fn lemma_broadcast_reaches_all(pre: Registry, post: Registry, snapshot: Seq<QueueToken>)
    requires
        delivered(pre, post, snapshot),
    ensures
        forall|i: int| 0 <= i < post.subscribers@.len()
            ==> (#[trigger] post.subscribers@[i]).inbox_view().len() > 0
                && post.subscribers@[i].inbox_view().last() == snapshot,
{
}

/// Law: a viewer that subscribes after a snapshot was published starts with
/// an empty inbox: that past snapshot is never delivered to it, only what is
/// published afterwards.
pub proof fn lemma_late_subscriber_no_backfill(
    r0: Registry,
    r1: Registry,
    r2: Registry,
    snapshot: Seq<QueueToken>,
    id: u64,
)
    requires
        delivered(r0, r1, snapshot),
        joined(r1, r2, id),
    ensures
        has_subscriber(r2.subscribers@, id),
        r2.subscribers@.last().id == id,
        r2.subscribers@.last().inbox_view() == Seq::<Seq<QueueToken>>::empty(),
        !r2.subscribers@.last().inbox_view().contains(snapshot),
{
    assert(r2.subscribers@[r2.subscribers@.len() - 1].id == id);
}

/// Law: the canonical spelling of each status parses back to that status.
pub proof fn lemma_status_name_round_trip(st: OrderStatus)
    ensures
        status_of(status_name(st)) == Some(st),
{
    reveal_strlit("pending");
    reveal_strlit("preparing");
    reveal_strlit("ready");
    reveal_strlit("completed");
    let s = status_name(st);
    assert(crate::status::trim_front(s) == s);
    assert(crate::status::trim_back(s) == s);
    assert(crate::status::normalize(s) =~= s);
    match st {
        OrderStatus::Pending => {
            assert(crate::status::normalize(s) == "pending"@);
        },
        OrderStatus::Preparing => {
            assert(crate::status::normalize(s) == "preparing"@);
        },
        OrderStatus::Ready => {
            assert(crate::status::normalize(s) == "ready"@);
        },
        OrderStatus::Completed => {
            assert(crate::status::normalize(s) == "completed"@);
        },
    }
}

} // verus!
