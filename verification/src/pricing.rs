use crate::amount::Amount;
use crate::cart::CartLine;
use vstd::prelude::*;

verus! {

/// The subtotals of the first `n` lines: unit price times quantity, each computed
/// exactly. There are none where one of them cannot be.
pub open spec fn subtotals(lines: Seq<CartLine>, prices: Seq<Amount>, n: nat) -> Option<
    Seq<Amount>,
>
    decreases n,
{
    if n == 0 {
        Some(Seq::empty())
    } else {
        match subtotals(lines, prices, (n - 1) as nat) {
            Some(before) => match prices[n - 1].multiple(lines[n - 1].quantity as int) {
                Some(subtotal) => Some(before.push(subtotal)),
                None => None,
            },
            None => None,
        }
    }
}

/// The first `n` amounts added up from zero, in their order, each sum computed
/// exactly. There is no total where one of the sums cannot be.
pub open spec fn total(amounts: Seq<Amount>, n: nat) -> Option<Amount>
    decreases n,
{
    if n == 0 {
        Some(Amount::from_parts(0, 0))
    } else {
        match total(amounts, (n - 1) as nat) {
            Some(before) => before.sum(amounts[n - 1]),
            None => None,
        }
    }
}

/// A cart with its prices worked out.
pub struct Priced {
    pub subtotals: Seq<Amount>,
    pub total: Amount,
}

/// The subtotal of every line and their total, where all can be computed exactly.
pub open spec fn priced(lines: Seq<CartLine>, prices: Seq<Amount>) -> Option<Priced> {
    match subtotals(lines, prices, lines.len()) {
        Some(subtotals) => match total(subtotals, lines.len()) {
            Some(total) => Some(Priced { subtotals, total }),
            None => None,
        },
        None => None,
    }
}

/// What the first `n` lines cost, in units of `10^-28`: the sum over the lines of
/// unit price times quantity.
pub open spec fn cost(lines: Seq<CartLine>, prices: Seq<Amount>, n: nat) -> int
    decreases n,
{
    if n == 0 {
        0
    } else {
        cost(lines, prices, (n - 1) as nat) + prices[n - 1]@ * lines[n - 1].quantity
    }
}

/// The sum of the numbers that the first `n` amounts denote.
pub open spec fn sum_of(amounts: Seq<Amount>, n: nat) -> int
    decreases n,
{
    if n == 0 {
        0
    } else {
        sum_of(amounts, (n - 1) as nat) + amounts[n - 1]@
    }
}

/// Subtotals, where they exist, are one for each line, well formed, and denote unit
/// price times quantity.
pub proof fn lemma_subtotals(lines: Seq<CartLine>, prices: Seq<Amount>, n: nat)
    requires
        n <= lines.len(),
        n <= prices.len(),
    ensures
        subtotals(lines, prices, n) matches Some(s) ==> {
            &&& s.len() == n
            &&& forall|i: int|
                0 <= i < n ==> (#[trigger] s[i]).wf() && s[i]@ == prices[i]@ * lines[i].quantity
            &&& forall|i: int|
                0 <= i < n ==> prices[i].multiple(lines[i].quantity as int) == Some(#[trigger] s[i])
            &&& sum_of(s, n) == cost(lines, prices, n)
        },
    decreases n,
{
    if n > 0 {
        lemma_subtotals(lines, prices, (n - 1) as nat);
        if let Some(s) = subtotals(lines, prices, n) {
            let before = subtotals(lines, prices, (n - 1) as nat)->0;
            prices[n - 1].lemma_multiple(lines[n - 1].quantity as int);
            assert forall|i: int| 0 <= i < n implies (#[trigger] s[i]).wf() && s[i]@ == prices[i]@
                * lines[i].quantity by {
                if i < n - 1 {
                    assert(s[i] == before[i]);
                }
            }
            assert forall|i: int| 0 <= i < n implies prices[i].multiple(lines[i].quantity as int)
                == Some(#[trigger] s[i]) by {
                if i < n - 1 {
                    assert(s[i] == before[i]);
                }
            }
            lemma_sum_of_prefix(s, before, (n - 1) as nat);
        }
    }
}

/// The sum of the first `n` amounts depends on those amounts alone.
pub proof fn lemma_sum_of_prefix(a: Seq<Amount>, b: Seq<Amount>, n: nat)
    requires
        n <= a.len(),
        n <= b.len(),
        forall|i: int| 0 <= i < n ==> a[i] == b[i],
    ensures
        sum_of(a, n) == sum_of(b, n),
    decreases n,
{
    if n > 0 {
        lemma_sum_of_prefix(a, b, (n - 1) as nat);
    }
}

/// A total, where it exists, is well formed and denotes the sum of the amounts.
pub proof fn lemma_total(amounts: Seq<Amount>, n: nat)
    requires
        n <= amounts.len(),
    ensures
        total(amounts, n) matches Some(t) ==> t.wf() && t@ == sum_of(amounts, n),
    decreases n,
{
    if n > 0 {
        lemma_total(amounts, (n - 1) as nat);
        if let Some(before) = total(amounts, (n - 1) as nat) {
            before.lemma_sum(amounts[n - 1]);
        }
    } else {
        Amount::lemma_from_parts(0, 0);
    }
}

/// A priced cart has a subtotal for each line that denotes unit price times
/// quantity, and a total that denotes what the cart costs.
pub proof fn lemma_priced(lines: Seq<CartLine>, prices: Seq<Amount>)
    requires
        prices.len() == lines.len(),
    ensures
        priced(lines, prices) matches Some(p) ==> {
            &&& p.subtotals.len() == lines.len()
            &&& forall|i: int|
                0 <= i < lines.len() ==> (#[trigger] p.subtotals[i]).wf() && p.subtotals[i]@
                    == prices[i]@ * lines[i].quantity
            &&& p.total.wf()
            &&& p.total@ == cost(lines, prices, lines.len())
        },
{
    lemma_subtotals(lines, prices, lines.len());
    if let Some(s) = subtotals(lines, prices, lines.len()) {
        lemma_total(s, lines.len());
    }
}

/// Works out the subtotal of every line and their total, all exactly.
pub fn price_cart(lines: &Vec<CartLine>, prices: &Vec<Amount>) -> (r: Option<
    (Vec<Amount>, Amount),
>)
    requires
        prices.len() == lines.len(),
    ensures
        match r {
            Some((subtotals, total)) => priced(lines@, prices@) == Some(
                Priced { subtotals: subtotals@, total },
            ),
            None => priced(lines@, prices@) is None,
        },
{
    let mut amounts: Vec<Amount> = Vec::new();
    let mut i: usize = 0;
    while i < lines.len()
        invariant
            i <= lines.len(),
            prices.len() == lines.len(),
            subtotals(lines@, prices@, i as nat) == Some(amounts@),
            amounts.len() == i,
        decreases lines.len() - i,
    {
        match prices[i].times(lines[i].quantity) {
            Some(subtotal) => {
                amounts.push(subtotal);
            },
            None => {
                proof {
                    lemma_subtotals_fail(lines@, prices@, (i + 1) as nat, lines.len() as nat);
                }
                return None;
            },
        }
        i = i + 1;
    }
    let mut sum: Amount = Amount::zero();
    let mut j: usize = 0;
    while j < amounts.len()
        invariant
            j <= amounts.len(),
            amounts.len() == lines.len(),
            subtotals(lines@, prices@, lines.len() as nat) == Some(amounts@),
            total(amounts@, j as nat) == Some(sum),
        decreases amounts.len() - j,
    {
        match sum.checked_add(amounts[j]) {
            Some(next) => {
                sum = next;
            },
            None => {
                proof {
                    lemma_total_fail(amounts@, (j + 1) as nat, amounts.len() as nat);
                }
                return None;
            },
        }
        j = j + 1;
    }
    Some((amounts, sum))
}

/// Where the subtotals of the first `n` lines cannot be had, those of more lines
/// cannot either.
pub proof fn lemma_subtotals_fail(lines: Seq<CartLine>, prices: Seq<Amount>, n: nat, m: nat)
    requires
        n <= m,
        subtotals(lines, prices, n) is None,
    ensures
        subtotals(lines, prices, m) is None,
    decreases m,
{
    if n < m {
        lemma_subtotals_fail(lines, prices, n, (m - 1) as nat);
    }
}

/// Where the total of the first `n` amounts cannot be had, that of more amounts
/// cannot either.
pub proof fn lemma_total_fail(amounts: Seq<Amount>, n: nat, m: nat)
    requires
        n <= m,
        total(amounts, n) is None,
    ensures
        total(amounts, m) is None,
    decreases m,
{
    if n < m {
        lemma_total_fail(amounts, n, (m - 1) as nat);
    }
}

} // verus!
