//! The persistent store modelled as a value: the four tables the engine
//! touches and the next row identifier of each. The mutating operations are
//! the order service (`create_order`) and the status-transition engine
//! (`set_status`); each behaves as one transaction: it either applies its
//! whole effect or leaves the store untouched.

use vstd::prelude::*;
use vstd::multiset::Multiset;
use crate::models::{ApiError, CreateOrder, CreateOrderItem, MenuItem, Order, OrderDetailed, OrderItem, OrderItemDetailed, OrderStatus, QueueToken, TokenStatus};
use crate::status::{parse_status, status_of};

verus! {

/// There is an order row with this identifier.
pub open spec fn has_order(orders: Seq<Order>, id: i32) -> bool {
    exists|i: int| 0 <= i < orders.len() && orders[i].id == id
}

/// There is a menu row with this identifier.
pub open spec fn has_menu_row(menu: Seq<MenuItem>, id: i32) -> bool {
    exists|i: int| 0 <= i < menu.len() && menu[i].id == id
}

/// There is a menu row with this identifier and it is currently available.
pub open spec fn menu_item_orderable(menu: Seq<MenuItem>, id: i32) -> bool {
    exists|i: int| 0 <= i < menu.len() && menu[i].id == id && menu[i].available
}

/// Every requested line has a positive quantity.
pub open spec fn items_all_positive(items: Seq<CreateOrderItem>) -> bool {
    forall|i: int| 0 <= i < items.len() ==> (#[trigger] items[i]).quantity > 0
}

/// Every requested line references an available menu item.
pub open spec fn items_all_on_menu(menu: Seq<MenuItem>, items: Seq<CreateOrderItem>) -> bool {
    forall|i: int| 0 <= i < items.len() ==> menu_item_orderable(menu, (#[trigger] items[i]).menu_item_id)
}

/// The order row written for a new order.
pub open spec fn new_order(id: i32, source: String, now: i64) -> Order {
    Order { id, source, status: OrderStatus::Pending, created_at: now, updated_at: now }
}

/// The line rows written for a new order: identifiers assigned in sequence
/// starting at `first_id`, one row per requested line, in request order.
pub open spec fn new_order_items(first_id: i32, order_id: i32, items: Seq<CreateOrderItem>) -> Seq<OrderItem> {
    Seq::new(items.len(), |i: int| OrderItem {
        id: (first_id + i) as i32,
        order_id,
        menu_item_id: items[i].menu_item_id,
        quantity: items[i].quantity,
    })
}

/// The queue token written for a new order: waiting, with the order
/// identifier doubling as the customer-facing token number.
pub open spec fn new_token(id: i32, order_id: i32, now: i64) -> QueueToken {
    QueueToken { id, order_id, token_number: order_id, status: TokenStatus::Waiting, created_at: now }
}

/// The order rows after a status change: the row with this identifier takes
/// the new status and a refreshed updated timestamp, every other row is kept
/// as it was. The refresh never lets the timestamp regress, so it is
/// monotonically non-decreasing whatever clock value the caller supplies.
pub open spec fn orders_with_status(orders: Seq<Order>, id: i32, st: OrderStatus, now: i64) -> Seq<Order> {
    Seq::new(orders.len(), |i: int| if orders[i].id == id {
        Order {
            id: orders[i].id,
            source: orders[i].source,
            status: st,
            created_at: orders[i].created_at,
            updated_at: if now >= orders[i].updated_at { now } else { orders[i].updated_at },
        }
    } else {
        orders[i]
    })
}

/// The token rows after an order becomes ready: its token is marked ready,
/// every other token is kept as it was.
pub open spec fn tokens_marked_ready(tokens: Seq<QueueToken>, order_id: i32) -> Seq<QueueToken> {
    Seq::new(tokens.len(), |i: int| if tokens[i].order_id == order_id {
        QueueToken {
            id: tokens[i].id,
            order_id: tokens[i].order_id,
            token_number: tokens[i].token_number,
            status: TokenStatus::Ready,
            created_at: tokens[i].created_at,
        }
    } else {
        tokens[i]
    })
}

/// The token rows after an order completes: its token is removed, every
/// other token is kept in order.
pub open spec fn tokens_without_order(tokens: Seq<QueueToken>, order_id: i32) -> Seq<QueueToken> {
    tokens.filter(|t: QueueToken| t.order_id != order_id)
}

/// The queue-token effect derived from a new order status: ready marks the
/// token ready, completed removes it, the other statuses leave it alone.
pub open spec fn token_update(tokens: Seq<QueueToken>, order_id: i32, st: OrderStatus) -> Seq<QueueToken> {
    match st {
        OrderStatus::Pending => tokens,
        OrderStatus::Preparing => tokens,
        OrderStatus::Ready => tokens_marked_ready(tokens, order_id),
        OrderStatus::Completed => tokens_without_order(tokens, order_id),
    }
}

/// The line rows belonging to one order, in row order.
pub open spec fn items_for_order(items: Seq<OrderItem>, order_id: i32) -> Seq<OrderItem> {
    items.filter(|it: OrderItem| it.order_id == order_id)
}

/// The index of the menu row with this identifier (meaningful when the row
/// exists and identifiers are unique).
pub open spec fn menu_index_of(menu: Seq<MenuItem>, id: i32) -> int {
    choose|i: int| 0 <= i < menu.len() && menu[i].id == id
}

/// One line row joined with the name, price and image of its menu row.
pub open spec fn detailed_item(menu: Seq<MenuItem>, it: OrderItem) -> OrderItemDetailed {
    let m = menu[menu_index_of(menu, it.menu_item_id)];
    OrderItemDetailed {
        id: it.id,
        order_id: it.order_id,
        menu_item_id: it.menu_item_id,
        quantity: it.quantity,
        menu_name: m.name,
        menu_price_cents: m.price_cents,
        menu_image: m.image_url,
    }
}

/// The joined line rows of one order, in row order.
pub open spec fn detailed_items_for_order(menu: Seq<MenuItem>, items: Seq<OrderItem>, order_id: i32) -> Seq<OrderItemDetailed> {
    items_for_order(items, order_id).map_values(|it: OrderItem| detailed_item(menu, it))
}

/// The index of the order row with this identifier (meaningful when the row
/// exists and identifiers are unique).
pub open spec fn order_index_of(orders: Seq<Order>, id: i32) -> int {
    choose|i: int| 0 <= i < orders.len() && orders[i].id == id
}

/// The order row with this identifier (meaningful when it exists).
pub open spec fn order_row(orders: Seq<Order>, id: i32) -> Order {
    orders[order_index_of(orders, id)]
}

/// There is a line row belonging to this order.
pub open spec fn has_item_for_order(items: Seq<OrderItem>, order_id: i32) -> bool {
    exists|i: int| 0 <= i < items.len() && items[i].order_id == order_id
}

/// One step of building a filtered sequence left to right: filtering one
/// more element appends that element exactly when it satisfies the
/// predicate.
proof fn lemma_filter_prefix_step<A>(s: Seq<A>, pred: spec_fn(A) -> bool, i: int)
    requires
        0 <= i < s.len(),
    ensures
        s.subrange(0, i + 1).filter(pred) == (if pred(s[i]) {
            s.subrange(0, i).filter(pred).push(s[i])
        } else {
            s.subrange(0, i).filter(pred)
        }),
{
    let prefix = s.subrange(0, i);
    let single = seq![s[i]];
    assert(s.subrange(0, i + 1) =~= prefix + single);
    Seq::<A>::filter_distributes_over_add(prefix, single, pred);
    reveal(Seq::filter);
    assert(single.drop_last() =~= Seq::<A>::empty());
    assert(Seq::<A>::empty().filter(pred) =~= Seq::<A>::empty());
    if pred(s[i]) {
        assert(single.filter(pred) =~= single);
        assert(prefix.filter(pred) + single =~= prefix.filter(pred).push(s[i]));
    } else {
        assert(single.filter(pred) =~= Seq::<A>::empty());
        assert(prefix.filter(pred) + Seq::<A>::empty() =~= prefix.filter(pred));
    }
}

/// The in-memory image of the persistent store.
pub struct Store {
    pub menu: Vec<MenuItem>,
    pub orders: Vec<Order>,
    pub order_items: Vec<OrderItem>,
    pub tokens: Vec<QueueToken>,
    pub next_menu_id: i32,
    pub next_order_id: i32,
    pub next_item_id: i32,
    pub next_token_id: i32,
}

impl Store {
    /// Menu rows sit in ascending identifier order below the next identifier.
    pub open spec fn menu_wf(&self) -> bool {
        &&& forall|i: int, j: int| 0 <= i < j < self.menu@.len()
                ==> self.menu@[i].id < self.menu@[j].id
        &&& forall|i: int| 0 <= i < self.menu@.len()
                ==> 1 <= (#[trigger] self.menu@[i]).id < self.next_menu_id
    }

    /// Order rows sit in ascending identifier order below the next
    /// identifier, and no row's updated timestamp precedes its creation.
    pub open spec fn orders_wf(&self) -> bool {
        &&& forall|i: int, j: int| 0 <= i < j < self.orders@.len()
                ==> self.orders@[i].id < self.orders@[j].id
        &&& forall|i: int| 0 <= i < self.orders@.len()
                ==> 1 <= (#[trigger] self.orders@[i]).id < self.next_order_id
        &&& forall|i: int| 0 <= i < self.orders@.len()
                ==> (#[trigger] self.orders@[i]).created_at <= self.orders@[i].updated_at
    }

    /// Every order owns at least one line row.
    pub open spec fn orders_have_items(&self) -> bool {
        forall|j: int| 0 <= j < self.orders@.len()
            ==> has_item_for_order(self.order_items@, (#[trigger] self.orders@[j]).id)
    }

    /// Line rows sit in ascending identifier order, reference an existing
    /// order and an existing menu row, and carry positive quantities.
    pub open spec fn order_items_wf(&self) -> bool {
        &&& forall|i: int, j: int| 0 <= i < j < self.order_items@.len()
                ==> self.order_items@[i].id < self.order_items@[j].id
        &&& forall|i: int| 0 <= i < self.order_items@.len()
                ==> 1 <= (#[trigger] self.order_items@[i]).id < self.next_item_id
        &&& forall|i: int| 0 <= i < self.order_items@.len()
                ==> has_order(self.orders@, (#[trigger] self.order_items@[i]).order_id)
        &&& forall|i: int| 0 <= i < self.order_items@.len()
                ==> (#[trigger] self.order_items@[i]).quantity > 0
        &&& forall|i: int| 0 <= i < self.order_items@.len()
                ==> has_menu_row(self.menu@, (#[trigger] self.order_items@[i]).menu_item_id)
    }

    /// Tokens sit in ascending identifier order, reference an existing,
    /// non-completed order, at most one token per order, and only carry the
    /// states this engine produces.
    pub open spec fn tokens_wf(&self) -> bool {
        &&& forall|i: int, j: int| 0 <= i < j < self.tokens@.len()
                ==> self.tokens@[i].id < self.tokens@[j].id
        &&& forall|i: int| 0 <= i < self.tokens@.len()
                ==> 1 <= (#[trigger] self.tokens@[i]).id < self.next_token_id
        &&& forall|i: int| 0 <= i < self.tokens@.len()
                ==> has_order(self.orders@, (#[trigger] self.tokens@[i]).order_id)
        &&& forall|i: int, j: int| 0 <= i < self.tokens@.len() && 0 <= j < self.tokens@.len() && i != j
                ==> self.tokens@[i].order_id != self.tokens@[j].order_id
        &&& forall|i: int| 0 <= i < self.tokens@.len()
                ==> ((#[trigger] self.tokens@[i]).status == TokenStatus::Waiting
                    || self.tokens@[i].status == TokenStatus::Ready)
        &&& forall|i: int, j: int| 0 <= i < self.tokens@.len() && 0 <= j < self.orders@.len()
                && (#[trigger] self.orders@[j]).id == (#[trigger] self.tokens@[i]).order_id
                ==> self.orders@[j].status != OrderStatus::Completed
    }

    /// The store invariant: every constructor establishes it and every
    /// operation preserves it.
    pub open spec fn wf(&self) -> bool {
        &&& 1 <= self.next_menu_id
        &&& 1 <= self.next_order_id
        &&& 1 <= self.next_item_id
        &&& 1 <= self.next_token_id
        &&& self.menu_wf()
        &&& self.orders_wf()
        &&& self.order_items_wf()
        &&& self.orders_have_items()
        &&& self.tokens_wf()
    }

    /// An empty store.
    pub fn new() -> (s: Store)
        ensures
            s.wf(),
            s.menu@ == Seq::<MenuItem>::empty(),
            s.orders@ == Seq::<Order>::empty(),
            s.order_items@ == Seq::<OrderItem>::empty(),
            s.tokens@ == Seq::<QueueToken>::empty(),
            s.next_order_id == 1,
            s.next_menu_id == 1,
            s.next_item_id == 1,
            s.next_token_id == 1,
    {
        Store {
            menu: Vec::new(),
            orders: Vec::new(),
            order_items: Vec::new(),
            tokens: Vec::new(),
            next_menu_id: 1,
            next_order_id: 1,
            next_item_id: 1,
            next_token_id: 1,
        }
    }

    /// Whether a menu item exists and is available, the read the order
    /// service consumes from the menu collaborator.
    pub fn menu_orderable(&self, id: i32) -> (r: bool)
        ensures
            r == menu_item_orderable(self.menu@, id),
    {
        let mut i: usize = 0;
        while i < self.menu.len()
            invariant
                0 <= i <= self.menu@.len(),
                forall|j: int| 0 <= j < i ==> !((#[trigger] self.menu@[j]).id == id && self.menu@[j].available),
            decreases self.menu@.len() - i,
        {
            if self.menu[i].id == id && self.menu[i].available {
                return true;
            }
            i = i + 1;
        }
        false
    }

    /// Add a menu row. Menu catalogue upkeep is the excluded collaborator's
    /// job; the store offers this write so the rows the order service
    /// validates against, and joins into detailed views, exist in the model.
    pub fn add_menu_item(
        &mut self,
        name: String,
        price_cents: i64,
        available: bool,
        image_url: Option<String>,
        now: i64,
    ) -> (r: Result<i32, ApiError>)
        requires
            old(self).wf(),
        ensures
            final(self).wf(),
            match r {
                Ok(id) => {
                    &&& old(self).next_menu_id < i32::MAX
                    &&& id == old(self).next_menu_id
                    &&& final(self).menu@ == old(self).menu@.push(MenuItem {
                        id,
                        name,
                        price_cents,
                        available,
                        image_url,
                        created_at: now,
                        updated_at: now,
                    })
                    &&& final(self).next_menu_id == id + 1
                    &&& final(self).orders@ == old(self).orders@
                    &&& final(self).order_items@ == old(self).order_items@
                    &&& final(self).tokens@ == old(self).tokens@
                    &&& final(self).next_order_id == old(self).next_order_id
                    &&& final(self).next_item_id == old(self).next_item_id
                    &&& final(self).next_token_id == old(self).next_token_id
                },
                Err(e) => {
                    &&& old(self).next_menu_id == i32::MAX
                    &&& e == ApiError::Storage
                    &&& *final(self) == *old(self)
                },
            },
    {
        if self.next_menu_id == i32::MAX {
            return Err(ApiError::Storage);
        }
        let id = self.next_menu_id;
        self.menu.push(MenuItem {
            id,
            name,
            price_cents,
            available,
            image_url,
            created_at: now,
            updated_at: now,
        });
        self.next_menu_id = id + 1;
        proof {
            assert forall|i: int| 0 <= i < self.order_items@.len()
                implies has_menu_row(self.menu@, (#[trigger] self.order_items@[i]).menu_item_id) by {
                let j = choose|j: int|
                    0 <= j < old(self).menu@.len()
                        && old(self).menu@[j].id == self.order_items@[i].menu_item_id;
                assert(self.menu@[j].id == self.order_items@[i].menu_item_id);
            }
        }
        Ok(id)
    }

    /// Room for one more order row, its token, and one line row per
    /// requested line.
    pub open spec fn create_capacity(&self, n_items: int) -> bool {
        &&& self.next_order_id < i32::MAX
        &&& self.next_token_id < i32::MAX
        &&& self.next_item_id + n_items <= i32::MAX
    }

    /// Why an order-creation request is refused on this store, or `None`
    /// when it must succeed. Client-input checks come before the capacity
    /// check, mirroring validation before any write.
    pub open spec fn create_order_check(&self, req: CreateOrder) -> Option<ApiError> {
        if req.items@.len() == 0 {
            Some(ApiError::EmptyItems)
        } else if !items_all_positive(req.items@) {
            Some(ApiError::NonPositiveQuantity)
        } else if !items_all_on_menu(self.menu@, req.items@) {
            Some(ApiError::UnknownMenuItem)
        } else if !self.create_capacity(req.items@.len() as int) {
            Some(ApiError::Storage)
        } else {
            None
        }
    }

    /// The whole effect of a successful order creation: one order row in
    /// state pending, one line row per requested line, one waiting queue
    /// token whose number is the order identifier, all stamped with `now`.
    pub open spec fn create_order_ok(pre: Store, post: Store, req: CreateOrder, now: i64, id: i32) -> bool {
        &&& id == pre.next_order_id
        &&& post.menu@ == pre.menu@
        &&& post.orders@ == pre.orders@.push(new_order(id, req.source, now))
        &&& post.order_items@ == pre.order_items@ + new_order_items(pre.next_item_id, id, req.items@)
        &&& post.tokens@ == pre.tokens@.push(new_token(pre.next_token_id, id, now))
        &&& post.next_menu_id == pre.next_menu_id
        &&& post.next_order_id as int == pre.next_order_id as int + 1
        &&& post.next_item_id as int == pre.next_item_id as int + req.items@.len()
        &&& post.next_token_id as int == pre.next_token_id as int + 1
    }

    /// The order service: validate the request, then write the order row,
    /// its line rows and its queue token as one transaction. On any refusal
    /// the store is left exactly as it was.
    #[verifier::loop_isolation(false)]
    pub fn create_order(&mut self, req: CreateOrder, now: i64) -> (r: Result<i32, ApiError>)
        requires
            old(self).wf(),
        ensures
            final(self).wf(),
            match r {
                Ok(id) => {
                    &&& old(self).create_order_check(req) is None
                    &&& Store::create_order_ok(*old(self), *final(self), req, now, id)
                },
                Err(e) => {
                    &&& *final(self) == *old(self)
                    &&& old(self).create_order_check(req) == Some(e)
                },
            },
    {
        let ghost req0 = req;
        let CreateOrder { source, items } = req;
        if items.len() == 0 {
            return Err(ApiError::EmptyItems);
        }
        let mut i: usize = 0;
        while i < items.len()
            invariant
                0 <= i <= items@.len(),
                forall|j: int| 0 <= j < i ==> (#[trigger] items@[j]).quantity > 0,
            decreases items@.len() - i,
        {
            if items[i].quantity <= 0 {
                return Err(ApiError::NonPositiveQuantity);
            }
            i = i + 1;
        }
        let mut i: usize = 0;
        while i < items.len()
            invariant
                0 <= i <= items@.len(),
                forall|j: int| 0 <= j < i
                    ==> menu_item_orderable(self.menu@, (#[trigger] items@[j]).menu_item_id),
            decreases items@.len() - i,
        {
            if !self.menu_orderable(items[i].menu_item_id) {
                return Err(ApiError::UnknownMenuItem);
            }
            i = i + 1;
        }
        if self.next_order_id == i32::MAX || self.next_token_id == i32::MAX {
            return Err(ApiError::Storage);
        }
        if items.len() > (i32::MAX - self.next_item_id) as usize {
            return Err(ApiError::Storage);
        }
        let ghost pre = *old(self);
        let order_id = self.next_order_id;
        self.orders.push(Order {
            id: order_id,
            source,
            status: OrderStatus::Pending,
            created_at: now,
            updated_at: now,
        });
        let ghost first_item_id = self.next_item_id;
        let mut i: usize = 0;
        while i < items.len()
            invariant
                0 <= i <= items@.len(),
                self.next_item_id as int == first_item_id as int + i,
                first_item_id as int + items@.len() <= i32::MAX,
                self.order_items@ == pre.order_items@
                    + new_order_items(first_item_id, order_id, items@.subrange(0, i as int)),
                self.menu@ == pre.menu@,
                self.orders@ == pre.orders@.push(new_order(order_id, req0.source, now)),
                self.tokens@ == pre.tokens@,
                self.next_menu_id == pre.next_menu_id,
                self.next_order_id == pre.next_order_id,
                self.next_token_id == pre.next_token_id,
                order_id == pre.next_order_id,
                first_item_id == pre.next_item_id,
                items@ == req0.items@,
            decreases items@.len() - i,
        {
            self.order_items.push(OrderItem {
                id: self.next_item_id,
                order_id,
                menu_item_id: items[i].menu_item_id,
                quantity: items[i].quantity,
            });
            self.next_item_id = self.next_item_id + 1;
            proof {
                assert(new_order_items(first_item_id, order_id, items@.subrange(0, i as int + 1))
                    =~= new_order_items(first_item_id, order_id, items@.subrange(0, i as int))
                        .push(OrderItem {
                            id: (first_item_id + i) as i32,
                            order_id,
                            menu_item_id: items@[i as int].menu_item_id,
                            quantity: items@[i as int].quantity,
                        }));
            }
            i = i + 1;
        }
        let token_id = self.next_token_id;
        self.tokens.push(QueueToken {
            id: token_id,
            order_id,
            token_number: order_id,
            status: TokenStatus::Waiting,
            created_at: now,
        });
        self.next_token_id = token_id + 1;
        self.next_order_id = order_id + 1;
        proof {
            assert(items@.subrange(0, items@.len() as int) =~= items@);
            let post = *self;
            let n_old = pre.order_items@.len() as int;
            assert forall|k: int| 0 <= k < post.order_items@.len()
                implies {
                    &&& has_order(post.orders@, (#[trigger] post.order_items@[k]).order_id)
                    &&& post.order_items@[k].quantity > 0
                    &&& has_menu_row(post.menu@, post.order_items@[k].menu_item_id)
                } by {
                if k < n_old {
                    assert(post.order_items@[k] == pre.order_items@[k]);
                    let j = choose|j: int|
                        0 <= j < pre.orders@.len()
                            && pre.orders@[j].id == pre.order_items@[k].order_id;
                    assert(post.orders@[j].id == post.order_items@[k].order_id);
                    let m = choose|m: int|
                        0 <= m < pre.menu@.len()
                            && pre.menu@[m].id == pre.order_items@[k].menu_item_id;
                    assert(post.menu@[m].id == post.order_items@[k].menu_item_id);
                } else {
                    let m = k - n_old;
                    assert(post.order_items@[k]
                        == new_order_items(first_item_id, order_id, items@)[m]);
                    assert(items@[m].quantity > 0);
                    assert(menu_item_orderable(post.menu@, items@[m].menu_item_id));
                    let w = choose|w: int|
                        0 <= w < post.menu@.len()
                            && post.menu@[w].id == items@[m].menu_item_id
                            && post.menu@[w].available;
                    assert(post.orders@[pre.orders@.len() as int].id == order_id);
                }
            }
            assert forall|k: int| 0 <= k < pre.tokens@.len()
                implies (#[trigger] pre.tokens@[k]).order_id != order_id by {
                let j = choose|j: int|
                    0 <= j < pre.orders@.len() && pre.orders@[j].id == pre.tokens@[k].order_id;
            }
            assert forall|k: int| 0 <= k < post.tokens@.len()
                implies has_order(post.orders@, (#[trigger] post.tokens@[k]).order_id) by {
                if k < pre.tokens@.len() {
                    let j = choose|j: int|
                        0 <= j < pre.orders@.len() && pre.orders@[j].id == pre.tokens@[k].order_id;
                    assert(post.orders@[j].id == post.tokens@[k].order_id);
                } else {
                    assert(post.orders@[pre.orders@.len() as int].id == order_id);
                }
            }
            assert forall|i: int, j: int|
                0 <= i < post.tokens@.len() && 0 <= j < post.orders@.len()
                    && (#[trigger] post.orders@[j]).id == (#[trigger] post.tokens@[i]).order_id
                implies post.orders@[j].status != OrderStatus::Completed by {
                if j < pre.orders@.len() && i < pre.tokens@.len() {
                    assert(pre.orders@[j].id == pre.tokens@[i].order_id);
                }
            }
            assert forall|j: int| 0 <= j < post.orders@.len()
                implies has_item_for_order(post.order_items@, (#[trigger] post.orders@[j]).id) by {
                if j < pre.orders@.len() {
                    let w = choose|w: int|
                        0 <= w < pre.order_items@.len()
                            && pre.order_items@[w].order_id == pre.orders@[j].id;
                    assert(post.order_items@[w].order_id == post.orders@[j].id);
                } else {
                    assert(post.order_items@[n_old].order_id == order_id);
                }
            }
            assert(self.wf());
        }
        Ok(order_id)
    }

    /// The index of the order row with this identifier, if there is one.
    pub fn find_order(&self, id: i32) -> (r: Option<usize>)
        ensures
            match r {
                Some(i) => i < self.orders@.len() && self.orders@[i as int].id == id,
                None => !has_order(self.orders@, id),
            },
    {
        let mut i: usize = 0;
        while i < self.orders.len()
            invariant
                0 <= i <= self.orders@.len(),
                forall|j: int| 0 <= j < i ==> (#[trigger] self.orders@[j]).id != id,
            decreases self.orders@.len() - i,
        {
            if self.orders[i].id == id {
                return Some(i);
            }
            i = i + 1;
        }
        None
    }

    /// The whole effect of a successful status change: the order row takes
    /// the new status with a refreshed updated timestamp, and the queue
    /// tokens take the derived effect, both in one unit of work.
    pub open spec fn set_status_ok(pre: Store, post: Store, order_id: i32, st: OrderStatus, now: i64) -> bool {
        &&& post.menu@ == pre.menu@
        &&& post.orders@ == orders_with_status(pre.orders@, order_id, st, now)
        &&& post.order_items@ == pre.order_items@
        &&& post.tokens@ == token_update(pre.tokens@, order_id, st)
        &&& post.next_menu_id == pre.next_menu_id
        &&& post.next_order_id == pre.next_order_id
        &&& post.next_item_id == pre.next_item_id
        &&& post.next_token_id == pre.next_token_id
    }

    /// The status-transition engine: validate the status string against the
    /// fixed vocabulary, look the order up, then persist the new status and
    /// the derived queue-token change as one unit of work. On any refusal
    /// the store is left exactly as it was.
    #[verifier::loop_isolation(false)]
    pub fn set_status(&mut self, order_id: i32, new_status: &str, now: i64) -> (r: Result<OrderStatus, ApiError>)
        requires
            old(self).wf(),
        ensures
            final(self).wf(),
            match r {
                Ok(st) => {
                    &&& status_of(new_status@) == Some(st)
                    &&& has_order(old(self).orders@, order_id)
                    &&& Store::set_status_ok(*old(self), *final(self), order_id, st, now)
                },
                Err(e) => {
                    &&& *final(self) == *old(self)
                    &&& match status_of(new_status@) {
                        None => e == ApiError::InvalidStatus,
                        Some(_) => !has_order(old(self).orders@, order_id) && e == ApiError::OrderNotFound,
                    }
                },
            },
    {
        let st = match parse_status(new_status) {
            None => {
                return Err(ApiError::InvalidStatus);
            },
            Some(st) => st,
        };
        let idx = match self.find_order(order_id) {
            None => {
                return Err(ApiError::OrderNotFound);
            },
            Some(i) => i,
        };
        let ghost pre = *old(self);
        let o = &mut self.orders[idx];
        o.status = st;
        if now > o.updated_at {
            o.updated_at = now;
        }
        proof {
            assert forall|k: int| 0 <= k < pre.orders@.len() && k != idx
                implies (#[trigger] pre.orders@[k]).id != order_id by {
                if k < idx {
                    assert(pre.orders@[k].id < pre.orders@[idx as int].id);
                } else {
                    assert(pre.orders@[idx as int].id < pre.orders@[k].id);
                }
            }
            assert(self.orders@ =~= orders_with_status(pre.orders@, order_id, st, now));
        }
        match st {
            OrderStatus::Ready => {
                let n = self.tokens.len();
                let mut i: usize = 0;
                while i < n
                    invariant
                        0 <= i <= n,
                        n == self.tokens@.len(),
                        self.tokens@.len() == pre.tokens@.len(),
                        self.menu@ == pre.menu@,
                        self.orders@ == orders_with_status(pre.orders@, order_id, st, now),
                        self.order_items@ == pre.order_items@,
                        self.next_menu_id == pre.next_menu_id,
                        self.next_order_id == pre.next_order_id,
                        self.next_item_id == pre.next_item_id,
                        self.next_token_id == pre.next_token_id,
                        forall|j: int| 0 <= j < i
                            ==> self.tokens@[j] == tokens_marked_ready(pre.tokens@, order_id)[j],
                        forall|j: int| i <= j < n ==> self.tokens@[j] == pre.tokens@[j],
                    decreases n - i,
                {
                    if self.tokens[i].order_id == order_id {
                        let t = &mut self.tokens[i];
                        t.status = TokenStatus::Ready;
                    }
                    i = i + 1;
                }
                proof {
                    assert(self.tokens@ =~= tokens_marked_ready(pre.tokens@, order_id));
                    lemma_set_status_ready_wf(pre, *self, order_id, now);
                }
            },
            OrderStatus::Completed => {
                let ghost keep = |t: QueueToken| t.order_id != order_id;
                let n = self.tokens.len();
                let mut kept: Vec<QueueToken> = Vec::new();
                let mut i: usize = 0;
                while i < n
                    invariant
                        0 <= i <= n,
                        n == self.tokens@.len(),
                        self.tokens@ == pre.tokens@,
                        kept@ == pre.tokens@.subrange(0, i as int).filter(keep),
                    decreases n - i,
                {
                    let t = self.tokens[i];
                    if t.order_id != order_id {
                        kept.push(t);
                    }
                    proof {
                        lemma_filter_prefix_step(pre.tokens@, keep, i as int);
                    }
                    i = i + 1;
                }
                proof {
                    assert(pre.tokens@.subrange(0, n as int) =~= pre.tokens@);
                }
                self.tokens = kept;
                proof {
                    lemma_set_status_completed_wf(pre, *self, order_id, now);
                }
            },
            OrderStatus::Pending => {
                proof {
                    lemma_set_status_keep_wf(pre, *self, order_id, st, now);
                }
            },
            OrderStatus::Preparing => {
                proof {
                    lemma_set_status_keep_wf(pre, *self, order_id, st, now);
                }
            },
        }
        Ok(st)
    }
}

/// An exact copy of an order row.
fn clone_order(o: &Order) -> (r: Order)
    ensures
        r == *o,
{
    Order {
        id: o.id,
        source: o.source.clone(),
        status: o.status,
        created_at: o.created_at,
        updated_at: o.updated_at,
    }
}

/// An exact copy of an optional string.
fn clone_opt_string(o: &Option<String>) -> (r: Option<String>)
    ensures
        r == *o,
{
    match o {
        Some(s) => Some(s.clone()),
        None => None,
    }
}

/// An exact copy of a menu row.
fn clone_menu_item(m: &MenuItem) -> (r: MenuItem)
    ensures
        r == *m,
{
    MenuItem {
        id: m.id,
        name: m.name.clone(),
        price_cents: m.price_cents,
        available: m.available,
        image_url: clone_opt_string(&m.image_url),
        created_at: m.created_at,
        updated_at: m.updated_at,
    }
}

impl Store {
    /// The queue read: every token row, in ascending identifier order
    /// (ascending row order is ascending identifier order by the store
    /// invariant). This is both the `GET /queue` read and the snapshot the
    /// broadcaster publishes.
    #[verifier::loop_isolation(false)]
    pub fn list_queue(&self) -> (r: Vec<QueueToken>)
        ensures
            r@ == self.tokens@,
    {
        let mut r: Vec<QueueToken> = Vec::new();
        let mut i: usize = 0;
        while i < self.tokens.len()
            invariant
                0 <= i <= self.tokens@.len(),
                r@ == self.tokens@.subrange(0, i as int),
            decreases self.tokens@.len() - i,
        {
            r.push(self.tokens[i]);
            proof {
                assert(self.tokens@.subrange(0, i as int + 1)
                    =~= self.tokens@.subrange(0, i as int).push(self.tokens@[i as int]));
            }
            i = i + 1;
        }
        proof {
            assert(self.tokens@.subrange(0, self.tokens@.len() as int) =~= self.tokens@);
        }
        r
    }

    /// All orders, newest first (row order is creation order, so newest
    /// first is reverse row order).
    #[verifier::loop_isolation(false)]
    pub fn list_orders(&self) -> (r: Vec<Order>)
        ensures
            r@ == self.orders@.reverse(),
    {
        let n = self.orders.len();
        let mut r: Vec<Order> = Vec::new();
        let mut i: usize = 0;
        while i < n
            invariant
                0 <= i <= n,
                n == self.orders@.len(),
                r@.len() == i,
                forall|j: int| 0 <= j < i ==> r@[j] == self.orders@[n - 1 - j],
            decreases n - i,
        {
            r.push(clone_order(&self.orders[n - 1 - i]));
            i = i + 1;
        }
        proof {
            assert(r@ =~= self.orders@.reverse());
        }
        r
    }

    /// The index of the menu row with this identifier, which must exist.
    #[verifier::loop_isolation(false)]
    fn find_menu_row(&self, id: i32) -> (i: usize)
        requires
            has_menu_row(self.menu@, id),
        ensures
            i < self.menu@.len() && self.menu@[i as int].id == id,
    {
        let mut i: usize = 0;
        while i < self.menu.len()
            invariant
                0 <= i <= self.menu@.len(),
                forall|j: int| 0 <= j < i ==> (#[trigger] self.menu@[j]).id != id,
                has_menu_row(self.menu@, id),
            decreases self.menu@.len() - i,
        {
            if self.menu[i].id == id {
                return i;
            }
            i = i + 1;
        }
        proof {
            assert(false);
        }
        0
    }

    /// An order joined with its line rows and their menu data, or `None`
    /// when no order has this identifier.
    #[verifier::loop_isolation(false)]
    pub fn get_order_detailed(&self, order_id: i32) -> (r: Option<OrderDetailed>)
        requires
            self.wf(),
        ensures
            match r {
                None => !has_order(self.orders@, order_id),
                Some(d) => {
                    &&& has_order(self.orders@, order_id)
                    &&& d.order == order_row(self.orders@, order_id)
                    &&& d.items@ == detailed_items_for_order(self.menu@, self.order_items@, order_id)
                    &&& d.items@.len() > 0
                },
            },
    {
        let idx = match self.find_order(order_id) {
            None => {
                return None;
            },
            Some(i) => i,
        };
        proof {
            let c = order_index_of(self.orders@, order_id);
            assert(0 <= c < self.orders@.len() && self.orders@[c].id == order_id);
            if c < idx as int {
                assert(self.orders@[c].id < self.orders@[idx as int].id);
            } else if c > idx as int {
                assert(self.orders@[idx as int].id < self.orders@[c].id);
            }
        }
        let order = clone_order(&self.orders[idx]);
        let ghost pick = |it: OrderItem| it.order_id == order_id;
        let ghost f = |it: OrderItem| detailed_item(self.menu@, it);
        let mut dets: Vec<OrderItemDetailed> = Vec::new();
        let n = self.order_items.len();
        let mut i: usize = 0;
        while i < n
            invariant
                0 <= i <= n,
                n == self.order_items@.len(),
                self.wf(),
                dets@ == self.order_items@.subrange(0, i as int).filter(pick).map_values(f),
            decreases n - i,
        {
            let it = self.order_items[i];
            if it.order_id == order_id {
                let m = self.find_menu_row(it.menu_item_id);
                let det = OrderItemDetailed {
                    id: it.id,
                    order_id: it.order_id,
                    menu_item_id: it.menu_item_id,
                    quantity: it.quantity,
                    menu_name: self.menu[m].name.clone(),
                    menu_price_cents: self.menu[m].price_cents,
                    menu_image: clone_opt_string(&self.menu[m].image_url),
                };
                proof {
                    let c = menu_index_of(self.menu@, it.menu_item_id);
                    assert(0 <= c < self.menu@.len() && self.menu@[c].id == it.menu_item_id);
                    if c < m as int {
                        assert(self.menu@[c].id < self.menu@[m as int].id);
                    } else if c > m as int {
                        assert(self.menu@[m as int].id < self.menu@[c].id);
                    }
                    assert(det == f(it));
                }
                dets.push(det);
            }
            proof {
                lemma_filter_prefix_step(self.order_items@, pick, i as int);
                let prefix = self.order_items@.subrange(0, i as int);
                if pick(self.order_items@[i as int]) {
                    assert(dets@ =~= prefix.filter(pick)
                        .push(self.order_items@[i as int]).map_values(f));
                } else {
                    assert(dets@ =~= prefix.filter(pick).map_values(f));
                }
            }
            i = i + 1;
        }
        proof {
            assert(self.order_items@.subrange(0, n as int) =~= self.order_items@);
            assert(self.orders@[idx as int].id == order_id);
            assert(has_item_for_order(self.order_items@, order_id));
            lemma_detailed_items_nonempty(self.menu@, self.order_items@, order_id);
        }
        Some(OrderDetailed { order, items: dets })
    }

    /// All orders joined with their line rows, newest first.
    #[verifier::loop_isolation(false)]
    pub fn list_orders_detailed(&self) -> (r: Vec<OrderDetailed>)
        requires
            self.wf(),
        ensures
            r@.len() == self.orders@.len(),
            forall|i: int| 0 <= i < r@.len()
                ==> (#[trigger] r@[i]).order == self.orders@[self.orders@.len() - 1 - i]
                    && r@[i].items@ == detailed_items_for_order(
                        self.menu@,
                        self.order_items@,
                        self.orders@[self.orders@.len() - 1 - i].id,
                    ),
    {
        let n = self.orders.len();
        let mut r: Vec<OrderDetailed> = Vec::new();
        let mut i: usize = 0;
        while i < n
            invariant
                0 <= i <= n,
                n == self.orders@.len(),
                self.wf(),
                r@.len() == i,
                forall|j: int| 0 <= j < i
                    ==> (#[trigger] r@[j]).order == self.orders@[n - 1 - j]
                        && r@[j].items@ == detailed_items_for_order(
                            self.menu@,
                            self.order_items@,
                            self.orders@[n - 1 - j].id,
                        ),
            decreases n - i,
        {
            let id = self.orders[n - 1 - i].id;
            match self.get_order_detailed(id) {
                Some(d) => {
                    proof {
                        let c = order_index_of(self.orders@, id);
                        assert(0 <= c < self.orders@.len() && self.orders@[c].id == id);
                        let k = n - 1 - i as int;
                        if c < k {
                            assert(self.orders@[c].id < self.orders@[k].id);
                        } else if c > k {
                            assert(self.orders@[k].id < self.orders@[c].id);
                        }
                    }
                    r.push(d);
                },
                None => {
                    proof {
                        assert(false);
                    }
                },
            }
            i = i + 1;
        }
        r
    }

    /// The orders whose updated timestamp is strictly after `since`, in row
    /// order.
    #[verifier::loop_isolation(false)]
    pub fn orders_updated_since(&self, since: i64) -> (r: Vec<Order>)
        ensures
            r@ == self.orders@.filter(|o: Order| o.updated_at > since),
    {
        let ghost pick = |o: Order| o.updated_at > since;
        let n = self.orders.len();
        let mut r: Vec<Order> = Vec::new();
        let mut i: usize = 0;
        while i < n
            invariant
                0 <= i <= n,
                n == self.orders@.len(),
                r@ == self.orders@.subrange(0, i as int).filter(pick),
            decreases n - i,
        {
            if self.orders[i].updated_at > since {
                r.push(clone_order(&self.orders[i]));
            }
            proof {
                lemma_filter_prefix_step(self.orders@, pick, i as int);
            }
            i = i + 1;
        }
        proof {
            assert(self.orders@.subrange(0, n as int) =~= self.orders@);
        }
        r
    }

    /// The menu rows whose updated timestamp is strictly after `since`, in
    /// row order.
    #[verifier::loop_isolation(false)]
    pub fn menu_updated_since(&self, since: i64) -> (r: Vec<MenuItem>)
        ensures
            r@ == self.menu@.filter(|m: MenuItem| m.updated_at > since),
    {
        let ghost pick = |m: MenuItem| m.updated_at > since;
        let n = self.menu.len();
        let mut r: Vec<MenuItem> = Vec::new();
        let mut i: usize = 0;
        while i < n
            invariant
                0 <= i <= n,
                n == self.menu@.len(),
                r@ == self.menu@.subrange(0, i as int).filter(pick),
            decreases n - i,
        {
            if self.menu[i].updated_at > since {
                r.push(clone_menu_item(&self.menu[i]));
            }
            proof {
                lemma_filter_prefix_step(self.menu@, pick, i as int);
            }
            i = i + 1;
        }
        proof {
            assert(self.menu@.subrange(0, n as int) =~= self.menu@);
        }
        r
    }

    /// Every menu row, in row order.
    #[verifier::loop_isolation(false)]
    pub fn list_menu_rows(&self) -> (r: Vec<MenuItem>)
        ensures
            r@ == self.menu@,
    {
        let mut r: Vec<MenuItem> = Vec::new();
        let mut i: usize = 0;
        while i < self.menu.len()
            invariant
                0 <= i <= self.menu@.len(),
                r@ == self.menu@.subrange(0, i as int),
            decreases self.menu@.len() - i,
        {
            r.push(clone_menu_item(&self.menu[i]));
            proof {
                assert(self.menu@.subrange(0, i as int + 1)
                    =~= self.menu@.subrange(0, i as int).push(self.menu@[i as int]));
            }
            i = i + 1;
        }
        proof {
            assert(self.menu@.subrange(0, self.menu@.len() as int) =~= self.menu@);
        }
        r
    }

    /// Every order row, in row order.
    #[verifier::loop_isolation(false)]
    pub fn list_order_rows(&self) -> (r: Vec<Order>)
        ensures
            r@ == self.orders@,
    {
        let mut r: Vec<Order> = Vec::new();
        let mut i: usize = 0;
        while i < self.orders.len()
            invariant
                0 <= i <= self.orders@.len(),
                r@ == self.orders@.subrange(0, i as int),
            decreases self.orders@.len() - i,
        {
            r.push(clone_order(&self.orders[i]));
            proof {
                assert(self.orders@.subrange(0, i as int + 1)
                    =~= self.orders@.subrange(0, i as int).push(self.orders@[i as int]));
            }
            i = i + 1;
        }
        proof {
            assert(self.orders@.subrange(0, self.orders@.len() as int) =~= self.orders@);
        }
        r
    }

    /// The menu rows that are currently available, in row order: the plain
    /// menu read of the excluded collaborator.
    #[verifier::loop_isolation(false)]
    pub fn list_menu(&self) -> (r: Vec<MenuItem>)
        ensures
            r@ == self.menu@.filter(|m: MenuItem| m.available),
    {
        let ghost pick = |m: MenuItem| m.available;
        let n = self.menu.len();
        let mut r: Vec<MenuItem> = Vec::new();
        let mut i: usize = 0;
        while i < n
            invariant
                0 <= i <= n,
                n == self.menu@.len(),
                r@ == self.menu@.subrange(0, i as int).filter(pick),
            decreases n - i,
        {
            if self.menu[i].available {
                r.push(clone_menu_item(&self.menu[i]));
            }
            proof {
                lemma_filter_prefix_step(self.menu@, pick, i as int);
            }
            i = i + 1;
        }
        proof {
            assert(self.menu@.subrange(0, n as int) =~= self.menu@);
        }
        r
    }
}

/// Rows in non-increasing order of their updated timestamp: newest update
/// first.
pub open spec fn sorted_by_updated_desc(v: Seq<Order>) -> bool {
    forall|a: int, b: int| 0 <= a < b < v.len() ==> v[a].updated_at >= v[b].updated_at
}

/// Sort order rows by their updated timestamp, newest first. The content is
/// kept exactly; rows with equal timestamps may come out in either order.
#[verifier::loop_isolation(false)]
pub fn sort_by_updated_desc(v: Vec<Order>) -> (r: Vec<Order>)
    ensures
        sorted_by_updated_desc(r@),
        r@.to_multiset() == v@.to_multiset(),
{
    broadcast use vstd::multiset::group_multiset_axioms;

    let mut rem = v;
    let mut out: Vec<Order> = Vec::new();
    proof {
        out@.to_multiset_ensures();
        assert(out@.to_multiset() =~= Multiset::<Order>::empty());
        assert(out@.to_multiset().add(rem@.to_multiset()) =~= rem@.to_multiset());
    }
    while rem.len() > 0
        invariant
            sorted_by_updated_desc(out@),
            forall|a: int, b: int| 0 <= a < out@.len() && 0 <= b < rem@.len()
                ==> out@[a].updated_at >= rem@[b].updated_at,
            out@.to_multiset().add(rem@.to_multiset()) == v@.to_multiset(),
        decreases rem@.len(),
    {
        let mut best: usize = 0;
        let mut i: usize = 1;
        while i < rem.len()
            invariant
                0 < rem@.len(),
                best < i,
                1 <= i <= rem@.len(),
                forall|j: int| 0 <= j < i
                    ==> rem@[best as int].updated_at >= (#[trigger] rem@[j]).updated_at,
            decreases rem@.len() - i,
        {
            if rem[i].updated_at > rem[best].updated_at {
                best = i;
            }
            i = i + 1;
        }
        let ghost out0 = out@;
        let ghost rem0 = rem@;
        let picked = rem.remove(best);
        let ghost picked0 = picked;
        out.push(picked);
        proof {
            rem0.to_multiset_ensures();
            out0.to_multiset_ensures();
            assert(rem0.contains(picked0));
            assert(out@.to_multiset() == out0.to_multiset().insert(picked0));
            assert(rem@.to_multiset() == rem0.to_multiset().remove(picked0));
            assert(out@.to_multiset().add(rem@.to_multiset())
                =~= out0.to_multiset().add(rem0.to_multiset()));
        }
    }
    proof {
        rem@.to_multiset_ensures();
        assert(rem@.to_multiset() =~= Multiset::<Order>::empty());
        assert(out@.to_multiset() =~= v@.to_multiset());
    }
    out
}

/// The joined line rows of an order that owns at least one line row are
/// never empty.
proof fn lemma_detailed_items_nonempty(menu: Seq<MenuItem>, items: Seq<OrderItem>, order_id: i32)
    requires
        has_item_for_order(items, order_id),
    ensures
        detailed_items_for_order(menu, items, order_id).len() > 0,
{
    broadcast use vstd::seq_lib::group_filter_ensures;

    let pick = |it: OrderItem| it.order_id == order_id;
    let w = choose|w: int| 0 <= w < items.len() && items[w].order_id == order_id;
    items.lemma_filter_contains(pick, w);
    assert(items.filter(pick).contains(items[w]));
}

/// A status change to ready preserves the store invariant.
proof fn lemma_set_status_ready_wf(pre: Store, post: Store, order_id: i32, now: i64)
    requires
        pre.wf(),
        post.menu@ == pre.menu@,
        post.orders@ == orders_with_status(pre.orders@, order_id, OrderStatus::Ready, now),
        post.order_items@ == pre.order_items@,
        post.tokens@ == tokens_marked_ready(pre.tokens@, order_id),
        post.next_menu_id == pre.next_menu_id,
        post.next_order_id == pre.next_order_id,
        post.next_item_id == pre.next_item_id,
        post.next_token_id == pre.next_token_id,
    ensures
        post.wf(),
{
    lemma_orders_with_status_refs(pre, post, order_id, OrderStatus::Ready, now);
    lemma_token_rows_kept_wf(pre, post, order_id, OrderStatus::Ready, now);
}

/// A status change that leaves the tokens alone preserves the store
/// invariant, for the two statuses without a token effect.
proof fn lemma_set_status_keep_wf(pre: Store, post: Store, order_id: i32, st: OrderStatus, now: i64)
    requires
        pre.wf(),
        st == OrderStatus::Pending || st == OrderStatus::Preparing,
        post.menu@ == pre.menu@,
        post.orders@ == orders_with_status(pre.orders@, order_id, st, now),
        post.order_items@ == pre.order_items@,
        post.tokens@ == pre.tokens@,
        post.next_menu_id == pre.next_menu_id,
        post.next_order_id == pre.next_order_id,
        post.next_item_id == pre.next_item_id,
        post.next_token_id == pre.next_token_id,
    ensures
        post.wf(),
{
    lemma_orders_with_status_refs(pre, post, order_id, st, now);
    lemma_token_rows_kept_wf(pre, post, order_id, st, now);
}

/// When a status change keeps every token row in place, identifier for
/// identifier (marking ready at most changes statuses), the token side of
/// the invariant carries over.
proof fn lemma_token_rows_kept_wf(pre: Store, post: Store, order_id: i32, st: OrderStatus, now: i64)
    requires
        pre.wf(),
        st != OrderStatus::Completed,
        post.orders@ == orders_with_status(pre.orders@, order_id, st, now),
        post.tokens@.len() == pre.tokens@.len(),
        forall|a: int| 0 <= a < pre.tokens@.len()
            ==> (#[trigger] post.tokens@[a]).id == pre.tokens@[a].id
                && post.tokens@[a].order_id == pre.tokens@[a].order_id
                && (post.tokens@[a].status == pre.tokens@[a].status
                    || post.tokens@[a].status == TokenStatus::Ready),
        post.next_token_id == pre.next_token_id,
    ensures
        post.tokens_wf(),
{
    assert forall|a: int| 0 <= a < post.tokens@.len()
        implies {
            &&& 1 <= (#[trigger] post.tokens@[a]).id < post.next_token_id
            &&& has_order(post.orders@, post.tokens@[a].order_id)
            &&& (post.tokens@[a].status == TokenStatus::Waiting
                || post.tokens@[a].status == TokenStatus::Ready)
        } by {
        assert(pre.tokens@[a].id >= 1);
        assert(has_order(pre.orders@, pre.tokens@[a].order_id));
        let j = choose|j: int|
            0 <= j < pre.orders@.len() && pre.orders@[j].id == pre.tokens@[a].order_id;
        assert(post.orders@[j].id == post.tokens@[a].order_id);
    }
    assert forall|i: int, j: int|
        0 <= i < post.tokens@.len() && 0 <= j < post.orders@.len()
            && (#[trigger] post.orders@[j]).id == (#[trigger] post.tokens@[i]).order_id
        implies post.orders@[j].status != OrderStatus::Completed by {
        assert(pre.orders@[j].id == pre.tokens@[i].order_id);
        if pre.orders@[j].id == order_id {
            assert(post.orders@[j].status == st);
        } else {
            assert(post.orders@[j].status == pre.orders@[j].status);
        }
    }
}

/// Filtering a sequence of tokens whose identifiers strictly increase keeps
/// the identifiers strictly increasing, and every kept row is one of the
/// original rows.
proof fn lemma_filter_keeps_order(tokens: Seq<QueueToken>, keep: spec_fn(QueueToken) -> bool)
    requires
        forall|a: int, b: int| 0 <= a < b < tokens.len() ==> tokens[a].id < tokens[b].id,
    ensures
        forall|a: int, b: int| 0 <= a < b < tokens.filter(keep).len()
            ==> tokens.filter(keep)[a].id < tokens.filter(keep)[b].id,
        forall|a: int| 0 <= a < tokens.filter(keep).len()
            ==> tokens.contains(#[trigger] tokens.filter(keep)[a]),
    decreases tokens.len(),
{
    reveal(Seq::filter);
    if tokens.len() > 0 {
        let butlast = tokens.drop_last();
        let last = tokens.last();
        lemma_filter_keeps_order(butlast, keep);
        let out = tokens.filter(keep);
        let sub = butlast.filter(keep);
        assert forall|a: int| 0 <= a < sub.len()
            implies tokens.contains(#[trigger] sub[a]) && sub[a].id < last.id by {
            assert(butlast.contains(sub[a]));
            let j = choose|j: int| 0 <= j < butlast.len() && butlast[j] == sub[a];
            assert(tokens[j] == sub[a]);
        }
        assert forall|a: int| 0 <= a < out.len()
            implies tokens.contains(#[trigger] out[a]) by {
            if a < sub.len() {
                assert(out[a] == sub[a]);
            } else {
                assert(out[a] == last);
                assert(tokens[tokens.len() - 1] == last);
            }
        }
        assert forall|a: int, b: int| 0 <= a < b < out.len()
            implies out[a].id < out[b].id by {
            if b < sub.len() {
                assert(out[a] == sub[a] && out[b] == sub[b]);
            } else {
                assert(out[a] == sub[a] && out[b] == last);
            }
        }
    }
}

/// A completed order's token removal preserves the store invariant.
proof fn lemma_set_status_completed_wf(pre: Store, post: Store, order_id: i32, now: i64)
    requires
        pre.wf(),
        post.menu@ == pre.menu@,
        post.orders@ == orders_with_status(pre.orders@, order_id, OrderStatus::Completed, now),
        post.order_items@ == pre.order_items@,
        post.tokens@ == tokens_without_order(pre.tokens@, order_id),
        post.next_menu_id == pre.next_menu_id,
        post.next_order_id == pre.next_order_id,
        post.next_item_id == pre.next_item_id,
        post.next_token_id == pre.next_token_id,
    ensures
        post.wf(),
{
    lemma_orders_with_status_refs(pre, post, order_id, OrderStatus::Completed, now);
    let keep = |t: QueueToken| t.order_id != order_id;
    broadcast use vstd::seq_lib::group_filter_ensures;

    lemma_filter_keeps_order(pre.tokens@, keep);
    assert forall|a: int| 0 <= a < post.tokens@.len()
        implies {
            &&& 1 <= (#[trigger] post.tokens@[a]).id < post.next_token_id
            &&& has_order(post.orders@, post.tokens@[a].order_id)
            &&& (post.tokens@[a].status == TokenStatus::Waiting
                || post.tokens@[a].status == TokenStatus::Ready)
            &&& post.tokens@[a].order_id != order_id
        } by {
        assert(pre.tokens@.contains(post.tokens@[a]));
        let j = choose|j: int| 0 <= j < pre.tokens@.len() && pre.tokens@[j] == post.tokens@[a];
        let w = choose|w: int|
            0 <= w < pre.orders@.len() && pre.orders@[w].id == pre.tokens@[j].order_id;
        assert(post.orders@[w].id == post.tokens@[a].order_id);
        assert(keep(post.tokens@[a]));
    }
    assert forall|a: int, b: int|
        0 <= a < post.tokens@.len() && 0 <= b < post.tokens@.len() && a != b
        implies post.tokens@[a].order_id != post.tokens@[b].order_id by {
        let ja = choose|j: int| 0 <= j < pre.tokens@.len() && pre.tokens@[j] == post.tokens@[a];
        let jb = choose|j: int| 0 <= j < pre.tokens@.len() && pre.tokens@[j] == post.tokens@[b];
        if ja == jb {
            if a < b {
                assert(post.tokens@[a].id < post.tokens@[b].id);
            } else {
                assert(post.tokens@[b].id < post.tokens@[a].id);
            }
        }
    }
    assert forall|i: int, j: int|
        0 <= i < post.tokens@.len() && 0 <= j < post.orders@.len()
            && (#[trigger] post.orders@[j]).id == (#[trigger] post.tokens@[i]).order_id
        implies post.orders@[j].status != OrderStatus::Completed by {
        assert(keep(post.tokens@[i]));
        assert(pre.orders@[j].id != order_id);
        assert(post.orders@[j].status == pre.orders@[j].status);
    }
}

/// Rewriting one order's status keeps identifiers, bounds and the rows the
/// line items and tokens reference, and only completed pairs need the token
/// side re-checked.
proof fn lemma_orders_with_status_refs(pre: Store, post: Store, order_id: i32, st: OrderStatus, now: i64)
    requires
        pre.wf(),
        post.menu@ == pre.menu@,
        post.orders@ == orders_with_status(pre.orders@, order_id, st, now),
        post.order_items@ == pre.order_items@,
        post.next_menu_id == pre.next_menu_id,
        post.next_order_id == pre.next_order_id,
        post.next_item_id == pre.next_item_id,
        post.next_token_id == pre.next_token_id,
    ensures
        post.orders_wf(),
        post.menu_wf(),
        post.order_items_wf(),
        post.orders_have_items(),
        forall|x: i32| has_order(pre.orders@, x) ==> #[trigger] has_order(post.orders@, x),
        forall|j: int| 0 <= j < post.orders@.len()
            ==> (#[trigger] post.orders@[j]).id == pre.orders@[j].id,
        forall|j: int| 0 <= j < post.orders@.len() && pre.orders@[j].id != order_id
            ==> (#[trigger] post.orders@[j]).status == pre.orders@[j].status,
        forall|j: int| 0 <= j < post.orders@.len() && pre.orders@[j].id == order_id
            ==> (#[trigger] post.orders@[j]).status == st,
{
    assert forall|x: i32| has_order(pre.orders@, x)
        implies #[trigger] has_order(post.orders@, x) by {
        let j = choose|j: int| 0 <= j < pre.orders@.len() && pre.orders@[j].id == x;
        assert(post.orders@[j].id == x);
    }
    assert forall|i: int| 0 <= i < post.order_items@.len()
        implies has_order(post.orders@, (#[trigger] post.order_items@[i]).order_id) by {
        assert(has_order(pre.orders@, pre.order_items@[i].order_id));
    }
    assert forall|j: int| 0 <= j < post.orders@.len()
        implies has_item_for_order(post.order_items@, (#[trigger] post.orders@[j]).id) by {
        let w = choose|w: int|
            0 <= w < pre.order_items@.len()
                && pre.order_items@[w].order_id == pre.orders@[j].id;
        assert(post.order_items@[w].order_id == post.orders@[j].id);
    }
}

} // verus!

