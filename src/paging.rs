//! How many pages a listing query spans, and how many items each page holds.
use vstd::prelude::*;

verus! {

/// Ceiling of `total / page_size`.
pub open spec fn ceil_div(total: int, page_size: int) -> int {
    if total % page_size == 0 {
        total / page_size
    } else {
        total / page_size + 1
    }
}

/// Items held by the 1-based page `page` of a feed of `total` items split
/// into pages of `page_size`.
pub open spec fn page_len(total: int, page_size: int, page: int) -> int {
    let before = (page - 1) * page_size;
    if page < 1 || total <= before {
        0
    } else if total - before >= page_size {
        page_size
    } else {
        total - before
    }
}

/// Items held by pages `1..=n` together.
pub open spec fn items_in_pages(total: int, page_size: int, n: nat) -> int
    decreases n,
{
    if n == 0 {
        0
    } else {
        items_in_pages(total, page_size, (n - 1) as nat) + page_len(total, page_size, n as int)
    }
}

/// Number of pages to fetch so that every one of `total_count` items is seen once.
pub fn page_count(total_count: u64, page_size: u64) -> (r: u64)
    requires
        page_size > 0,
    ensures
        r == ceil_div(total_count as int, page_size as int),
{
    let q = total_count / page_size;
    if total_count % page_size == 0 {
        q
    } else {
        proof {
            let (t, s, qq, r) = (
                total_count as int,
                page_size as int,
                q as int,
                (total_count % page_size) as int,
            );
            vstd::arithmetic::div_mod::lemma_fundamental_div_mod(t, s);
            assert(qq < t) by (nonlinear_arith)
                requires s >= 1, qq >= 0, r >= 1, t == s * qq + r;
        }
        q + 1
    }
}

proof fn lemma_items_in_pages(total: nat, page_size: nat, n: nat)
    requires
        page_size > 0,
    ensures
        items_in_pages(total as int, page_size as int, n) == if n * page_size <= total {
            (n * page_size) as int
        } else {
            total as int
        },
    decreases n,
{
    let (t, s, k) = (total as int, page_size as int, n as int);
    if n == 0 {
        assert(k * s == 0);
    } else {
        lemma_items_in_pages(total, page_size, (n - 1) as nat);
        let before = (k - 1) * s;
        assert(k * s == before + s) by (nonlinear_arith)
            requires before == (k - 1) * s;
        assert(((n - 1) as nat * page_size) as int == before);
        assert(items_in_pages(t, s, n) == items_in_pages(t, s, (n - 1) as nat) + page_len(t, s, k));
        if t <= before {
            assert(page_len(t, s, k) == 0);
        } else if t - before >= s {
            assert(page_len(t, s, k) == s);
        } else {
            assert(page_len(t, s, k) == t - before);
        }
    }
}

proof fn lemma_ceil_bounds(total: nat, page_size: nat)
    requires
        page_size > 0,
    ensures
        ceil_div(total as int, page_size as int) >= 0,
        ceil_div(total as int, page_size as int) * page_size >= total,
        total > 0 ==> (ceil_div(total as int, page_size as int) - 1) * page_size < total,
        total == 0 ==> ceil_div(total as int, page_size as int) == 0,
{
    let q = total as int / page_size as int;
    let r = total as int % page_size as int;
    vstd::arithmetic::div_mod::lemma_fundamental_div_mod(total as int, page_size as int);
    assert(0 <= r < page_size);
    assert(q >= 0) by {
        vstd::arithmetic::div_mod::lemma_div_pos_is_pos(total as int, page_size as int);
    }
    assert((q + 1) * page_size == q * page_size + page_size) by (nonlinear_arith);
    assert((q - 1) * page_size == q * page_size - page_size) by (nonlinear_arith);
    if total == 0 {
        assert(q == 0) by {
            vstd::arithmetic::div_mod::lemma_div_of0(page_size as int);
        }
    }
}

/// Paging with `ceil_div(total, page_size)` pages sees every item exactly once:
/// the pages together hold `total` items, none of them is empty, and the page
/// after the last would be empty. In particular 100 items at 50 per page take
/// two pages, not three.
pub proof fn lemma_pages_cover(total: nat, page_size: nat)
    requires
        page_size > 0,
    ensures
        ceil_div(total as int, page_size as int) >= 0,
        items_in_pages(total as int, page_size as int, ceil_div(total as int, page_size as int) as nat)
            == total,
        forall|p: int|
            1 <= p <= ceil_div(total as int, page_size as int) ==> page_len(
                total as int,
                page_size as int,
                p,
            ) > 0,
        page_len(total as int, page_size as int, ceil_div(total as int, page_size as int) + 1)
            == 0,
        ceil_div(100, 50) == 2,
{
    let n = ceil_div(total as int, page_size as int);
    lemma_ceil_bounds(total, page_size);
    lemma_items_in_pages(total, page_size, n as nat);
    assert forall|p: int| 1 <= p <= n implies page_len(total as int, page_size as int, p) > 0 by {
        assert((p - 1) * page_size <= (n - 1) * page_size) by (nonlinear_arith)
            requires p <= n, page_size > 0;
    }
    assert(((n + 1) - 1) * page_size == n * page_size);
}

} // verus!
