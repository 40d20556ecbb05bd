use crate::models::PurchaseItem;
use vstd::prelude::*;

verus! {

/// One line of a checked cart: a goods item and how many units of it are wanted
/// in all.
#[derive(Clone, Copy, Debug, PartialEq, Eq, Structural)]
pub struct CartLine {
    pub goods_id: i32,
    /// The units wanted, all items for the goods item together. The count stops at
    /// the largest number it can hold, which is more than any stock.
    pub quantity: i64,
}

/// Why a cart is turned away before the store is asked anything.
#[derive(Clone, Copy, Debug, PartialEq, Eq, Structural)]
pub enum CartError {
    /// The cart holds no line.
    Empty,
    /// The first line whose quantity is zero or less names this goods item.
    NonPositiveQuantity { goods_id: i32 },
}

/// The goods item that line `i` names.
pub open spec fn goods_at(lines: Seq<CartLine>, i: int) -> i32 {
    lines[i].goods_id
}

/// No two lines name the same goods item.
pub open spec fn distinct_goods(lines: Seq<CartLine>) -> bool {
    forall|i: int, j: int|
        0 <= i < lines.len() && 0 <= j < lines.len() && i != j ==> #[trigger] goods_at(lines, i)
            != #[trigger] goods_at(lines, j)
}

/// Some line names the goods item.
pub open spec fn names_goods(lines: Seq<CartLine>, goods_id: i32) -> bool {
    exists|i: int| 0 <= i < lines.len() && #[trigger] goods_at(lines, i) == goods_id
}

/// The place of a line that names the goods item.
pub open spec fn line_of(lines: Seq<CartLine>, goods_id: i32) -> int {
    choose|i: int| 0 <= i < lines.len() && #[trigger] goods_at(lines, i) == goods_id
}

/// Every line asks for at least one unit.
pub open spec fn positive_quantities(lines: Seq<CartLine>) -> bool {
    forall|i: int| 0 <= i < lines.len() ==> (#[trigger] lines[i]).quantity > 0
}

/// The units of one goods item that the items of a cart ask for, all lines together.
pub open spec fn quantity_of(items: Seq<PurchaseItem>, goods_id: i32) -> int
    decreases items.len(),
{
    if items.len() == 0 {
        0
    } else {
        quantity_of(items.drop_last(), goods_id) + if items.last().goods_id == goods_id {
            items.last().quantity as int
        } else {
            0
        }
    }
}

/// The units that the lines ask for of one goods item: those of its line, or none.
pub open spec fn wanted(lines: Seq<CartLine>, goods_id: i32) -> int {
    if names_goods(lines, goods_id) {
        lines[line_of(lines, goods_id)].quantity as int
    } else {
        0
    }
}

/// A number of units as a line counts it: the count stops at the largest number
/// that it can hold.
pub open spec fn capped(units: int) -> i64 {
    if units >= i64::MAX {
        i64::MAX
    } else {
        units as i64
    }
}

/// The lines with one more item taken in: added to the line of its goods, or put
/// behind the others as a line of its own.
pub open spec fn with_item(lines: Seq<CartLine>, item: PurchaseItem) -> Seq<CartLine> {
    if names_goods(lines, item.goods_id) {
        let i = line_of(lines, item.goods_id);
        lines.update(
            i,
            CartLine {
                goods_id: item.goods_id,
                quantity: capped(lines[i].quantity + item.quantity),
            },
        )
    } else {
        lines.push(CartLine { goods_id: item.goods_id, quantity: item.quantity as i64 })
    }
}

/// The items merged by goods: one line for each goods item, in the order in which
/// the goods first occur, with the quantities of its items added up. A cart that
/// names a goods item twice is served as if it had named it once, with the sum.
pub open spec fn merged(items: Seq<PurchaseItem>) -> Seq<CartLine>
    decreases items.len(),
{
    if items.len() == 0 {
        Seq::empty()
    } else {
        with_item(merged(items.drop_last()), items.last())
    }
}

/// Item `k` is the first whose quantity is zero or less.
pub open spec fn first_non_positive(items: Seq<PurchaseItem>, k: int) -> bool {
    &&& 0 <= k < items.len()
    &&& items[k].quantity <= 0
    &&& forall|j: int| 0 <= j < k ==> (#[trigger] items[j]).quantity > 0
}

/// The lines of a cart that can be served, or the reason why it cannot: an empty
/// cart and a quantity of zero or less are turned away, in that order, then the
/// items are merged by goods.
pub open spec fn checked(items: Seq<PurchaseItem>) -> Result<Seq<CartLine>, CartError> {
    if items.len() == 0 {
        Err(CartError::Empty)
    } else if exists|k: int| first_non_positive(items, k) {
        Err(
            CartError::NonPositiveQuantity {
                goods_id: items[choose|k: int| first_non_positive(items, k)].goods_id,
            },
        )
    } else {
        Ok(merged(items))
    }
}

/// What merging keeps: the lines name distinct goods, each asks for at least one
/// unit, and of every goods item the lines ask for as many units as the items do.
pub proof fn merging_keeps_quantities(items: Seq<PurchaseItem>)
    requires
        forall|j: int| 0 <= j < items.len() ==> (#[trigger] items[j]).quantity > 0,
    ensures
        distinct_goods(merged(items)),
        positive_quantities(merged(items)),
        items.len() > 0 ==> merged(items).len() > 0,
        forall|g: i32| quantity_of(items, g) >= 0,
        forall|g: i32| wanted(merged(items), g) == capped(quantity_of(items, g)),
    decreases items.len(),
{
    if items.len() == 0 {
        assert forall|g: i32| wanted(Seq::<CartLine>::empty(), g) == capped(quantity_of(items, g)) by {}
    } else {
        let before = items.drop_last();
        let item = items.last();
        assert forall|j: int| 0 <= j < before.len() implies (#[trigger] before[j]).quantity
            > 0 by {
            assert(before[j] == items[j]);
        }
        merging_keeps_quantities(before);
        let lines = merged(before);
        lemma_with_item(lines, item);
        assert forall|g: i32| quantity_of(items, g) >= 0 by {
            assert(quantity_of(before, g) >= 0);
        }
        assert forall|g: i32| wanted(merged(items), g) == capped(quantity_of(items, g)) by {
            assert(wanted(lines, g) == capped(quantity_of(before, g)));
            assert(quantity_of(before, g) >= 0);
        }
    }
}

/// Taking in one item keeps the goods distinct and the quantities positive, and
/// adds the item's quantity to what is wanted of its goods and of no other.
pub proof fn lemma_with_item(lines: Seq<CartLine>, item: PurchaseItem)
    requires
        distinct_goods(lines),
        positive_quantities(lines),
        item.quantity > 0,
    ensures
        distinct_goods(with_item(lines, item)),
        positive_quantities(with_item(lines, item)),
        with_item(lines, item).len() > 0,
        with_item(lines, item).len() >= lines.len(),
        forall|g: i32|
            wanted(with_item(lines, item), g) == if g == item.goods_id {
                capped(wanted(lines, g) + item.quantity) as int
            } else {
                wanted(lines, g)
            },
{
    let after = with_item(lines, item);
    if names_goods(lines, item.goods_id) {
        let i = line_of(lines, item.goods_id);
        assert forall|a: int| 0 <= a < lines.len() implies goods_at(after, a) == goods_at(
            lines,
            a,
        ) by {}
        assert forall|a: int, b: int|
            0 <= a < after.len() && 0 <= b < after.len() && a != b implies #[trigger] goods_at(
            after,
            a,
        ) != #[trigger] goods_at(after, b) by {
            assert(goods_at(lines, a) != goods_at(lines, b));
        }
        assert forall|a: int| 0 <= a < after.len() implies (#[trigger] after[a]).quantity
            > 0 by {
            assert(lines[a].quantity > 0);
        }
        assert forall|g: i32|
            wanted(after, g) == if g == item.goods_id {
                capped(wanted(lines, g) + item.quantity) as int
            } else {
                wanted(lines, g)
            } by {
            if names_goods(lines, g) {
                let a = line_of(lines, g);
                assert(goods_at(after, a) == g);
                let b = line_of(after, g);
                assert(goods_at(lines, b) == g);
                assert(a == b);
            } else if names_goods(after, g) {
                let b = line_of(after, g);
                assert(goods_at(lines, b) == g);
            }
        }
    } else {
        let n = lines.len() as int;
        assert forall|a: int, b: int|
            0 <= a < after.len() && 0 <= b < after.len() && a != b implies #[trigger] goods_at(
            after,
            a,
        ) != #[trigger] goods_at(after, b) by {
            if a < n {
                assert(goods_at(lines, a) == goods_at(after, a));
            }
            if b < n {
                assert(goods_at(lines, b) == goods_at(after, b));
            }
        }
        assert forall|a: int| 0 <= a < after.len() implies (#[trigger] after[a]).quantity
            > 0 by {
            if a < n {
                assert(lines[a].quantity > 0);
            }
        }
        assert forall|g: i32|
            wanted(after, g) == if g == item.goods_id {
                capped(wanted(lines, g) + item.quantity) as int
            } else {
                wanted(lines, g)
            } by {
            if g == item.goods_id {
                assert(goods_at(after, n) == g);
                let b = line_of(after, g);
                if b < n {
                    assert(goods_at(lines, b) == g);
                }
            } else if names_goods(lines, g) {
                let a = line_of(lines, g);
                assert(goods_at(after, a) == g);
                let b = line_of(after, g);
                assert(b < n);
                assert(goods_at(lines, b) == g);
                assert(a == b);
            } else if names_goods(after, g) {
                let b = line_of(after, g);
                assert(goods_at(lines, b) == g);
            }
        }
    }
}

fn find_line(lines: &Vec<CartLine>, goods_id: i32) -> (r: Option<usize>)
    ensures
        r matches Some(i) ==> i < lines.len() && lines[i as int].goods_id == goods_id,
        r is None ==> !names_goods(lines@, goods_id),
{
    let mut i: usize = 0;
    while i < lines.len()
        invariant
            i <= lines.len(),
            forall|j: int| 0 <= j < i ==> goods_at(lines@, j) != goods_id,
        decreases lines.len() - i,
    {
        if lines[i].goods_id == goods_id {
            return Some(i);
        }
        i = i + 1;
    }
    None
}

/// Checks a cart and merges its items by goods.
pub fn check_cart(items: &Vec<PurchaseItem>) -> (r: Result<Vec<CartLine>, CartError>)
    ensures
        match r {
            Ok(lines) => checked(items@) == Ok::<Seq<CartLine>, CartError>(lines@),
            Err(e) => checked(items@) == Err::<Seq<CartLine>, CartError>(e),
        },
        r matches Ok(lines) ==> lines.len() > 0 && distinct_goods(lines@) && positive_quantities(
            lines@,
        ),
{
    if items.len() == 0 {
        return Err(CartError::Empty);
    }
    let mut k: usize = 0;
    while k < items.len()
        invariant
            k <= items.len(),
            forall|j: int| 0 <= j < k ==> (#[trigger] items[j]).quantity > 0,
        decreases items.len() - k,
    {
        if items[k].quantity <= 0 {
            proof {
                assert(first_non_positive(items@, k as int));
                let c = choose|c: int| first_non_positive(items@, c);
                assert(c == k);
            }
            return Err(CartError::NonPositiveQuantity { goods_id: items[k].goods_id });
        }
        k = k + 1;
    }
    let mut lines: Vec<CartLine> = Vec::new();
    let mut i: usize = 0;
    proof {
        assert(items@.take(0) =~= Seq::<PurchaseItem>::empty());
    }
    while i < items.len()
        invariant
            i <= items.len(),
            forall|j: int| 0 <= j < items.len() ==> (#[trigger] items[j]).quantity > 0,
            merged(items@.take(i as int)) == lines@,
            distinct_goods(lines@),
            positive_quantities(lines@),
            i > 0 ==> lines.len() > 0,
        decreases items.len() - i,
    {
        let item = items[i];
        proof {
            assert(items@.take(i + 1).drop_last() =~= items@.take(i as int));
            assert(items@.take(i + 1).last() == item);
            lemma_with_item(lines@, item);
        }
        match find_line(&lines, item.goods_id) {
            Some(at) => {
                proof {
                    assert(goods_at(lines@, at as int) == item.goods_id);
                    let c = line_of(lines@, item.goods_id);
                    assert(c == at);
                    assert(lines@[at as int].quantity > 0);
                }
                let so_far: i64 = lines[at].quantity;
                let more: i64 = item.quantity as i64;
                let quantity: i64 = if so_far >= i64::MAX - more {
                    i64::MAX
                } else {
                    so_far + more
                };
                lines.set(at, CartLine { goods_id: item.goods_id, quantity });
            },
            None => {
                lines.push(CartLine { goods_id: item.goods_id, quantity: item.quantity as i64 });
            },
        }
        i = i + 1;
    }
    proof {
        assert(items@.take(items.len() as int) =~= items@);
    }
    Ok(lines)
}

/// Where no item is the first with a quantity of zero or less, every item asks
/// for at least one unit.
pub proof fn lemma_all_positive(items: Seq<PurchaseItem>, n: int)
    requires
        0 <= n <= items.len(),
        !exists|k: int| first_non_positive(items, k),
    ensures
        forall|j: int| 0 <= j < n ==> (#[trigger] items[j]).quantity > 0,
    decreases n,
{
    if n > 0 {
        lemma_all_positive(items, n - 1);
        if items[n - 1].quantity <= 0 {
            assert(first_non_positive(items, n - 1));
        }
    }
}

/// What the first `n` items cost at the given unit prices: the sum over the items,
/// as they were sent, of unit price times quantity.
pub open spec fn items_total(items: Seq<PurchaseItem>, price: spec_fn(i32) -> int, n: nat) -> int
    decreases n,
{
    if n == 0 {
        0
    } else {
        items_total(items, price, (n - 1) as nat) + price(items[n - 1].goods_id) * items[n
            - 1].quantity
    }
}

/// What the first `n` lines cost at the given unit prices.
pub open spec fn lines_total(lines: Seq<CartLine>, price: spec_fn(i32) -> int, n: nat) -> int
    decreases n,
{
    if n == 0 {
        0
    } else {
        lines_total(lines, price, (n - 1) as nat) + price(lines[n - 1].goods_id) * lines[n
            - 1].quantity
    }
}

/// No line has counted up to the largest number that it can hold.
pub open spec fn counted_in_full(lines: Seq<CartLine>) -> bool {
    forall|i: int| 0 <= i < lines.len() ==> (#[trigger] lines[i]).quantity < i64::MAX
}

proof fn lemma_items_total_prefix(
    a: Seq<PurchaseItem>,
    b: Seq<PurchaseItem>,
    price: spec_fn(i32) -> int,
    n: nat,
)
    requires
        n <= a.len(),
        n <= b.len(),
        forall|k: int| 0 <= k < n ==> a[k] == b[k],
    ensures
        items_total(a, price, n) == items_total(b, price, n),
    decreases n,
{
    if n > 0 {
        lemma_items_total_prefix(a, b, price, (n - 1) as nat);
    }
}

proof fn lemma_lines_total_changed(
    lines: Seq<CartLine>,
    at: int,
    quantity: i64,
    price: spec_fn(i32) -> int,
    n: nat,
)
    requires
        0 <= at < lines.len(),
        n <= lines.len(),
    ensures
        lines_total(
            lines.update(at, CartLine { goods_id: lines[at].goods_id, quantity }),
            price,
            n,
        ) == lines_total(lines, price, n) + if at < n {
            price(lines[at].goods_id) * (quantity - lines[at].quantity)
        } else {
            0
        },
    decreases n,
{
    if n > 0 {
        lemma_lines_total_changed(lines, at, quantity, price, (n - 1) as nat);
        if at == n - 1 {
            let p = price(lines[at].goods_id);
            let old = lines[at].quantity as int;
            let new = quantity as int;
            assert(p * new == p * old + p * (new - old)) by (nonlinear_arith);
        }
    }
}

proof fn lemma_lines_total_prefix(
    a: Seq<CartLine>,
    b: Seq<CartLine>,
    price: spec_fn(i32) -> int,
    n: nat,
)
    requires
        n <= a.len(),
        n <= b.len(),
        forall|k: int| 0 <= k < n ==> a[k] == b[k],
    ensures
        lines_total(a, price, n) == lines_total(b, price, n),
    decreases n,
{
    if n > 0 {
        lemma_lines_total_prefix(a, b, price, (n - 1) as nat);
    }
}

/// Merging keeps the cost: where no line has counted up to the largest number it
/// can hold, the merged cart costs what the items cost as they were sent, the sum
/// over the items of unit price times quantity.
pub proof fn merging_keeps_the_total(items: Seq<PurchaseItem>, price: spec_fn(i32) -> int)
    requires
        forall|j: int| 0 <= j < items.len() ==> (#[trigger] items[j]).quantity > 0,
        counted_in_full(merged(items)),
    ensures
        lines_total(merged(items), price, merged(items).len()) == items_total(
            items,
            price,
            items.len(),
        ),
    decreases items.len(),
{
    if items.len() > 0 {
        let before = items.drop_last();
        let item = items.last();
        let lines = merged(before);
        let after = merged(items);
        assert forall|j: int| 0 <= j < before.len() implies (#[trigger] before[j]).quantity
            > 0 by {
            assert(before[j] == items[j]);
        }
        merging_keeps_quantities(before);
        let p = price(item.goods_id);
        if names_goods(lines, item.goods_id) {
            let at = line_of(lines, item.goods_id);
            assert(goods_at(lines, at) == item.goods_id);
            assert(after[at].quantity < i64::MAX);
            assert(lines[at].quantity > 0);
            assert forall|i: int| 0 <= i < lines.len() implies (#[trigger] lines[i]).quantity
                < i64::MAX by {
                if i != at {
                    assert(after[i] == lines[i]);
                }
            }
            merging_keeps_the_total(before, price);
            lemma_lines_total_changed(lines, at, after[at].quantity, price, lines.len());
        } else {
            assert forall|i: int| 0 <= i < lines.len() implies (#[trigger] lines[i]).quantity
                < i64::MAX by {
                assert(after[i] == lines[i]);
            }
            merging_keeps_the_total(before, price);
            lemma_lines_total_prefix(after, lines, price, lines.len());
        }
        lemma_items_total_prefix(items, before, price, before.len());
    }
}

} // verus!
