//! The mathematical model of the two tables and the laws that the store's
//! operations obey on it.

use vstd::prelude::*;
use crate::order::{stamp_all, stamped, HeaderModel, OrderItem, OrderModel};
use crate::row::header_with_id;

verus! {

/// Item rows that belong to the order `id`.
pub open spec fn owned_by(id: int) -> spec_fn(OrderItem) -> bool {
    |it: OrderItem| it.order_id as int == id
}

/// Item rows that belong to another order than `id`.
pub open spec fn not_owned_by(id: int) -> spec_fn(OrderItem) -> bool {
    |it: OrderItem| it.order_id as int != id
}

/// Headers of orders placed by the customer `customer_id`.
pub open spec fn placed_by(customer_id: int) -> spec_fn(HeaderModel) -> bool {
    |h: HeaderModel| h.customer_id == customer_id
}

/// The contents of the store: the header table in insertion order, the item table
/// in insertion order, and the identifier that the next order will get.
pub ghost struct StoreModel {
    pub headers: Seq<HeaderModel>,
    pub items: Seq<OrderItem>,
    pub next_id: int,
}

impl StoreModel {
    /// Identifiers are positive, handed out in increasing order, never reused, and
    /// fit an `i32`; every item row belongs to a stored header.
    pub open spec fn wf(self) -> bool {
        &&& 1 <= self.next_id <= i32::MAX as int + 1
        &&& forall|i: int|
            0 <= i < self.headers.len() ==> 1 <= #[trigger] self.headers[i].order_id
                < self.next_id
        &&& forall|i: int, j: int|
            0 <= i < j < self.headers.len() ==> #[trigger] self.headers[i].order_id
                < #[trigger] self.headers[j].order_id
        &&& forall|k: int|
            0 <= k < self.items.len() ==> self.has(#[trigger] self.items[k].order_id as int)
    }

    /// Some header row has the identifier `id`.
    pub open spec fn has(self, id: int) -> bool {
        exists|i: int| 0 <= i < self.headers.len() && #[trigger] self.headers[i].order_id == id
    }

    /// The position of the header row with the identifier `id`.
    pub open spec fn index_of(self, id: int) -> int {
        choose|i: int| 0 <= i < self.headers.len() && #[trigger] self.headers[i].order_id == id
    }

    /// The aggregate of the header `h`: the header and every item row of its order.
    pub open spec fn aggregate(self, h: HeaderModel) -> OrderModel {
        OrderModel { header: h, items: self.items.filter(owned_by(h.order_id)) }
    }

    /// The stored aggregate with the identifier `id`, if there is one.
    pub open spec fn lookup(self, id: int) -> Option<OrderModel> {
        if self.has(id) {
            Some(self.aggregate(self.headers[self.index_of(id)]))
        } else {
            None
        }
    }

    /// The store after `o` was created under the next identifier.
    pub open spec fn created(self, o: OrderModel) -> StoreModel {
        StoreModel {
            headers: self.headers.push(header_with_id(o.header, self.next_id)),
            items: self.items + stamp_all(o.items, self.next_id as i32),
            next_id: self.next_id + 1,
        }
    }

    /// The store after the order `id` was overwritten by `o`: its header takes the new
    /// fields and keeps its identifier and place; its items are replaced by those of `o`.
    pub open spec fn updated(self, id: int, o: OrderModel) -> StoreModel {
        StoreModel {
            headers: self.headers.update(self.index_of(id), header_with_id(o.header, id)),
            items: self.items.filter(not_owned_by(id)) + stamp_all(o.items, id as i32),
            next_id: self.next_id,
        }
    }

    /// The store after the order `id` was removed, header and items.
    pub open spec fn deleted(self, id: int) -> StoreModel {
        StoreModel {
            headers: self.headers.remove(self.index_of(id)),
            items: self.items.filter(not_owned_by(id)),
            next_id: self.next_id,
        }
    }
}

/// In a well-formed store the header with the identifier `id` stands at one place only.
pub proof fn lemma_index_of_unique(s: StoreModel, id: int, i: int)
    requires
        s.wf(),
        0 <= i < s.headers.len(),
        s.headers[i].order_id == id,
    ensures
        s.has(id),
        s.index_of(id) == i,
{
    assert(s.has(id));
    let j = s.index_of(id);
    if j < i {
        assert(s.headers[j].order_id < s.headers[i].order_id);
    } else if i < j {
        assert(s.headers[i].order_id < s.headers[j].order_id);
    }
}

/// Every row that a filter on `p` keeps has the property `q`, when each row that
/// satisfies `p` has it.
proof fn lemma_filter_keeps(
    items: Seq<OrderItem>,
    p: spec_fn(OrderItem) -> bool,
    q: spec_fn(OrderItem) -> bool,
)
    requires
        forall|k: int| 0 <= k < items.len() && p(#[trigger] items[k]) ==> q(items[k]),
    ensures
        forall|k: int| 0 <= k < items.filter(p).len() ==> q(#[trigger] items.filter(p)[k]),
    decreases items.len(),
{
    reveal(Seq::filter);
    if items.len() > 0 {
        let rest = items.drop_last();
        assert forall|k: int| 0 <= k < rest.len() && p(#[trigger] rest[k]) implies q(rest[k]) by {
            assert(rest[k] == items[k]);
        }
        lemma_filter_keeps(rest, p, q);
        let f = items.filter(p);
        let g = rest.filter(p);
        assert(items.last() == items[items.len() - 1]);
        assert forall|k: int| 0 <= k < f.len() implies q(#[trigger] f[k]) by {
            if k < g.len() {
                assert(f[k] == g[k]);
            } else {
                assert(f[k] == items.last());
            }
        }
    }
}

/// In a well-formed store every item row belongs to an identifier that was handed out.
proof fn lemma_item_ids_below(s: StoreModel)
    requires
        s.wf(),
    ensures
        forall|k: int| 0 <= k < s.items.len() ==> 1 <= #[trigger] s.items[k].order_id < s.next_id,
{
    assert forall|k: int| 0 <= k < s.items.len() implies 1 <= #[trigger] s.items[k].order_id
        < s.next_id by {
        assert(s.has(s.items[k].order_id as int));
        let i = s.index_of(s.items[k].order_id as int);
        assert(1 <= s.headers[i].order_id < s.next_id);
    }
}

/// A well-formed store holds no item row of an order without a header.
pub proof fn lemma_no_items_without_header(s: StoreModel, id: int)
    requires
        s.wf(),
        !s.has(id),
    ensures
        s.items.filter(owned_by(id)) == Seq::<OrderItem>::empty(),
{
    assert forall|k: int| 0 <= k < s.items.len() implies #[trigger] s.items[k].order_id != id by {
        assert(s.has(s.items[k].order_id as int));
    }
    lemma_no_items_of(s.items, id);
}

/// Rows that all belong to other orders than `id` leave nothing under `id`.
proof fn lemma_no_items_of(items: Seq<OrderItem>, id: int)
    requires
        forall|k: int| 0 <= k < items.len() ==> #[trigger] items[k].order_id != id,
    ensures
        items.filter(owned_by(id)) == Seq::<OrderItem>::empty(),
    decreases items.len(),
{
    reveal(Seq::filter);
    if items.len() > 0 {
        let rest = items.drop_last();
        assert forall|k: int| 0 <= k < rest.len() implies #[trigger] rest[k].order_id != id by {
            assert(rest[k] == items[k]);
        }
        lemma_no_items_of(rest, id);
    }
}

/// Rows that were all stamped with `id` are all kept by the filter on `id`.
proof fn lemma_stamped_items_of(items: Seq<OrderItem>, id: i32)
    ensures
        stamp_all(items, id).filter(owned_by(id as int)) == stamp_all(items, id),
    decreases items.len(),
{
    reveal(Seq::filter);
    let s = stamp_all(items, id);
    if items.len() > 0 {
        let rest = items.drop_last();
        lemma_stamped_items_of(rest, id);
        assert(s.drop_last() =~= stamp_all(rest, id));
        assert(s.last() == stamped(items.last(), id));
        assert(s =~= stamp_all(rest, id).push(s.last()));
    } else {
        assert(s =~= Seq::<OrderItem>::empty());
    }
}

/// Removing the rows of `id` leaves none of them.
proof fn lemma_removed_items_of(items: Seq<OrderItem>, id: int)
    ensures
        items.filter(not_owned_by(id)).filter(owned_by(id)) == Seq::<OrderItem>::empty(),
    decreases items.len(),
{
    reveal(Seq::filter);
    if items.len() > 0 {
        lemma_removed_items_of(items.drop_last(), id);
        Seq::lemma_filter_push(
            items.drop_last().filter(not_owned_by(id)),
            items.last(),
            owned_by(id),
        );
    }
}

/// Creating an order keeps the store well-formed.
pub proof fn lemma_created_wf(s: StoreModel, o: OrderModel)
    requires
        s.wf(),
        s.next_id <= i32::MAX,
    ensures
        s.created(o).wf(),
{
    let t = s.created(o);
    let st = stamp_all(o.items, s.next_id as i32);
    let last = s.headers.len() as int;
    assert(t.headers[last].order_id == s.next_id);
    assert forall|k: int| 0 <= k < t.items.len() implies t.has(
        #[trigger] t.items[k].order_id as int,
    ) by {
        if k >= s.items.len() {
            assert(t.items[k] == st[k - s.items.len()]);
            assert(t.headers[last].order_id == t.items[k].order_id);
        } else {
            assert(t.items[k] == s.items[k]);
            assert(s.has(s.items[k].order_id as int));
            let i = s.index_of(s.items[k].order_id as int);
            assert(t.headers[i] == s.headers[i]);
        }
    }
    assert forall|i: int| 0 <= i < t.headers.len() implies 1 <= #[trigger] t.headers[i].order_id
        < t.next_id by {
        if i < s.headers.len() {
            assert(t.headers[i] == s.headers[i]);
        }
    }
    assert forall|i: int, j: int|
        0 <= i < j < t.headers.len() implies #[trigger] t.headers[i].order_id
        < #[trigger] t.headers[j].order_id by {
        assert(t.headers[i] == s.headers[i]);
        if j < s.headers.len() {
            assert(t.headers[j] == s.headers[j]);
        }
    }
}

/// Overwriting an existing order keeps the store well-formed.
pub proof fn lemma_updated_wf(s: StoreModel, id: int, o: OrderModel)
    requires
        s.wf(),
        s.has(id),
    ensures
        s.updated(id, o).wf(),
{
    let t = s.updated(id, o);
    let x = s.index_of(id);
    let kept = s.items.filter(not_owned_by(id));
    let st = stamp_all(o.items, id as i32);
    let q = |it: OrderItem| t.has(it.order_id as int);
    assert(t.headers[x].order_id == id);
    assert forall|k: int|
        0 <= k < s.items.len() && not_owned_by(id)(#[trigger] s.items[k]) implies q(s.items[k]) by {
        assert(s.has(s.items[k].order_id as int));
        let i = s.index_of(s.items[k].order_id as int);
        assert(t.headers[i].order_id == s.headers[i].order_id);
    }
    lemma_filter_keeps(s.items, not_owned_by(id), q);
    assert(-0x8000_0000 <= s.headers[x].order_id <= 0x7fff_ffff);
    assert forall|k: int| 0 <= k < t.items.len() implies t.has(
        #[trigger] t.items[k].order_id as int,
    ) by {
        if k >= kept.len() {
            assert(t.items[k] == st[k - kept.len()]);
            assert(t.headers[x].order_id == t.items[k].order_id);
        } else {
            assert(t.items[k] == kept[k]);
            assert(q(kept[k]));
        }
    }
    assert forall|i: int| 0 <= i < t.headers.len() implies 1 <= #[trigger] t.headers[i].order_id
        < t.next_id by {
        if i != x {
            assert(t.headers[i] == s.headers[i]);
        }
    }
    assert forall|i: int, j: int|
        0 <= i < j < t.headers.len() implies #[trigger] t.headers[i].order_id
        < #[trigger] t.headers[j].order_id by {
        assert(t.headers[x].order_id == s.headers[x].order_id);
        if i != x {
            assert(t.headers[i] == s.headers[i]);
        }
        if j != x {
            assert(t.headers[j] == s.headers[j]);
        }
    }
}

/// Removing an existing order keeps the store well-formed.
pub proof fn lemma_deleted_wf(s: StoreModel, id: int)
    requires
        s.wf(),
        s.has(id),
    ensures
        s.deleted(id).wf(),
{
    let t = s.deleted(id);
    let x = s.index_of(id);
    let q = |it: OrderItem| t.has(it.order_id as int);
    assert forall|k: int|
        0 <= k < s.items.len() && not_owned_by(id)(#[trigger] s.items[k]) implies q(s.items[k]) by {
        assert(s.has(s.items[k].order_id as int));
        let i = s.index_of(s.items[k].order_id as int);
        assert(i != x);
        let ti = if i < x { i } else { i - 1 };
        assert(t.headers[ti] == s.headers[i]);
    }
    lemma_filter_keeps(s.items, not_owned_by(id), q);
    assert forall|k: int| 0 <= k < t.items.len() implies t.has(
        #[trigger] t.items[k].order_id as int,
    ) by {
        assert(q(t.items[k]));
    }
    assert forall|i: int| 0 <= i < t.headers.len() implies 1 <= #[trigger] t.headers[i].order_id
        < t.next_id by {
        if i < x {
            assert(t.headers[i] == s.headers[i]);
        } else {
            assert(t.headers[i] == s.headers[i + 1]);
        }
    }
    assert forall|i: int, j: int|
        0 <= i < j < t.headers.len() implies #[trigger] t.headers[i].order_id
        < #[trigger] t.headers[j].order_id by {
        let si = if i < x { i } else { i + 1 };
        let sj = if j < x { j } else { j + 1 };
        assert(t.headers[i] == s.headers[si]);
        assert(t.headers[j] == s.headers[sj]);
        assert(s.headers[si].order_id < s.headers[sj].order_id);
    }
}

/// An order that was just created is found under the identifier that creation
/// returned, with the header that was given and exactly the items that were given,
/// each stamped with that identifier.
pub proof fn lemma_find_after_create(s: StoreModel, o: OrderModel)
    requires
        s.wf(),
        s.next_id <= i32::MAX,
    ensures
        s.created(o).wf(),
        s.created(o).lookup(s.next_id) == Some(
            OrderModel {
                header: header_with_id(o.header, s.next_id),
                items: stamp_all(o.items, s.next_id as i32),
            },
        ),
{
    lemma_created_wf(s, o);
    let t = s.created(o);
    let id = s.next_id;
    let last = s.headers.len() as int;
    lemma_index_of_unique(t, id, last);
    lemma_item_ids_below(s);
    assert forall|k: int| 0 <= k < s.items.len() implies #[trigger] s.items[k].order_id != id by {}
    lemma_no_items_of(s.items, id);
    Seq::filter_distributes_over_add(
        s.items,
        stamp_all(o.items, id as i32),
        owned_by(id),
    );
    lemma_stamped_items_of(o.items, id as i32);
    assert(t.items.filter(owned_by(id)) =~= stamp_all(o.items, id as i32));
}

/// An identifier that was never handed out finds no order.
pub proof fn lemma_find_unknown(s: StoreModel, id: int)
    requires
        s.wf(),
        id < 1 || id >= s.next_id,
    ensures
        s.lookup(id) is None,
{
    if s.has(id) {
        let i = s.index_of(id);
        assert(1 <= s.headers[i].order_id < s.next_id);
    }
}

/// After an existing order was overwritten, looking it up gives exactly the new
/// header fields under the same identifier, and the new items.
pub proof fn lemma_find_after_update(s: StoreModel, id: int, o: OrderModel)
    requires
        s.wf(),
        s.has(id),
    ensures
        s.updated(id, o).wf(),
        s.updated(id, o).lookup(id) == Some(
            OrderModel { header: header_with_id(o.header, id), items: stamp_all(o.items, id as i32) },
        ),
{
    lemma_updated_wf(s, id, o);
    let t = s.updated(id, o);
    let x = s.index_of(id);
    lemma_index_of_unique(t, id, x);
    let kept = s.items.filter(not_owned_by(id));
    lemma_removed_items_of(s.items, id);
    Seq::filter_distributes_over_add(kept, stamp_all(o.items, id as i32), owned_by(id));
    lemma_stamped_items_of(o.items, id as i32);
    assert(t.items.filter(owned_by(id)) =~= stamp_all(o.items, id as i32));
}

/// After an existing order was removed, it is no longer found, and none of its item
/// rows is left.
pub proof fn lemma_find_after_delete(s: StoreModel, id: int)
    requires
        s.wf(),
        s.has(id),
    ensures
        s.deleted(id).wf(),
        s.deleted(id).lookup(id) is None,
        s.deleted(id).items.filter(owned_by(id)) == Seq::<OrderItem>::empty(),
{
    lemma_deleted_wf(s, id);
    let t = s.deleted(id);
    let x = s.index_of(id);
    if t.has(id) {
        let i = t.index_of(id);
        let si = if i < x { i } else { i + 1 };
        assert(t.headers[i] == s.headers[si]);
        if si < x {
            assert(s.headers[si].order_id < s.headers[x].order_id);
        } else {
            assert(s.headers[x].order_id < s.headers[si].order_id);
        }
    }
    lemma_removed_items_of(s.items, id);
}

/// Creating an order adds exactly one aggregate at the end of the full listing, the
/// new order with its own items, and leaves every earlier aggregate as it was.
pub proof fn lemma_list_after_create(s: StoreModel, o: OrderModel)
    requires
        s.wf(),
        s.next_id <= i32::MAX,
    ensures
        s.created(o).headers.len() == s.headers.len() + 1,
        forall|j: int|
            0 <= j < s.headers.len() ==> s.created(o).aggregate(#[trigger] s.created(o).headers[j])
                == s.aggregate(s.headers[j]),
        s.created(o).aggregate(s.created(o).headers[s.headers.len() as int]) == (OrderModel {
            header: header_with_id(o.header, s.next_id),
            items: stamp_all(o.items, s.next_id as i32),
        }),
{
    let t = s.created(o);
    let st = stamp_all(o.items, s.next_id as i32);
    assert forall|j: int|
        0 <= j < s.headers.len() implies t.aggregate(#[trigger] t.headers[j]) == s.aggregate(
            s.headers[j],
        ) by {
        let id = s.headers[j].order_id;
        assert(t.headers[j] == s.headers[j]);
        assert forall|k: int| 0 <= k < st.len() implies #[trigger] st[k].order_id != id by {}
        lemma_no_items_of(st, id);
        Seq::filter_distributes_over_add(s.items, st, owned_by(id));
        assert(t.items.filter(owned_by(id)) =~= s.items.filter(owned_by(id)));
    }
    lemma_find_after_create(s, o);
    lemma_index_of_unique(t, s.next_id, s.headers.len() as int);
}

} // verus!
