//! The pagination engine: slices a filtered record list into fixed-size
//! pages, clamping the requested page so that a shrinking filter result
//! re-clamps instead of running out of bounds.

use vstd::prelude::*;
use crate::catalog::{CatalogRecord, RecordView, recs};
use vstd::arithmetic::div_mod::lemma_remainder;
use vstd::arithmetic::mul::lemma_mul_inequality;

verus! {

/// The page actually shown for a request: 0 on an empty list, otherwise the
/// requested page clamped to the last non-empty page.
pub open spec fn clamped_page(n: nat, size: nat, requested: nat) -> nat
    recommends
        size >= 1,
{
    if n == 0 {
        0
    } else {
        let last = (((n - 1) as int) / (size as int)) as nat;
        if requested <= last {
            requested
        } else {
            last
        }
    }
}

/// The records of one page: the window `[page*size, (page+1)*size)` of the
/// list, cut off at its end; empty when the window starts past the end.
pub open spec fn page_slice(s: Seq<RecordView>, size: nat, page: nat) -> Seq<RecordView>
    recommends
        size >= 1,
{
    let start = (page * size) as int;
    let end = if (page + 1) * size <= s.len() {
        ((page + 1) * size) as int
    } else {
        s.len() as int
    };
    if start <= s.len() {
        s.subrange(start, end)
    } else {
        Seq::empty()
    }
}

/// Paginates the filtered list: returns the clamped page number and the
/// records of that page, in order.
pub fn paginate(filtered: &Vec<CatalogRecord>, page_size: usize, requested: usize) -> (r: (
    usize,
    Vec<CatalogRecord>,
))
    requires
        page_size >= 1,
    ensures
        r.0 == clamped_page(filtered@.len(), page_size as nat, requested as nat),
        recs(r.1@) == page_slice(recs(filtered@), page_size as nat, r.0 as nat),
{
    let n = filtered.len();
    let clamped: usize = if n == 0 {
        0
    } else {
        let last = (n - 1) / page_size;
        if requested <= last {
            requested
        } else {
            last
        }
    };
    let start: usize = if n == 0 {
        0
    } else {
        proof {
            lemma_clamped_page_in_range(n as nat, page_size as nat, requested as nat);
        }
        clamped * page_size
    };
    let count: usize = if n == 0 {
        0
    } else if n - start <= page_size {
        n - start
    } else {
        page_size
    };
    let mut out: Vec<CatalogRecord> = Vec::new();
    let mut k: usize = 0;
    while k < count
        invariant
            n == filtered@.len(),
            start + count <= n,
            k <= count,
            out@.len() == k,
            forall|j: int| 0 <= j < k ==> #[trigger] out@[j]@ == filtered@[start + j]@,
        decreases count - k,
    {
        out.push(filtered[start + k].clone());
        k += 1;
    }
    proof {
        let cat = recs(filtered@);
        let size = page_size as nat;
        let page = clamped as nat;
        if n == 0 {
            assert(recs(out@) =~= page_slice(cat, size, page));
        } else {
            lemma_clamped_page_in_range(n as nat, size, requested as nat);
            assert((page + 1) * size == page * size + size) by (nonlinear_arith);
            assert(start == page * size);
            assert(count == if (page + 1) * size <= cat.len() {
                size as int
            } else {
                cat.len() - start
            });
            assert(recs(out@) =~= page_slice(cat, size, page));
        }
    }
    (clamped, out)
}

/// Pagination clamp: on a non-empty list the clamped page's window starts
/// inside the list, and an empty list always shows page 0.
pub proof fn lemma_pagination_clamp(n: nat, size: nat, requested: nat)
    requires
        size >= 1,
    ensures
        n > 0 ==> clamped_page(n, size, requested) * size < n,
        n == 0 ==> clamped_page(n, size, requested) == 0,
{
    if n > 0 {
        lemma_clamped_page_in_range(n, size, requested);
    }
}

proof fn lemma_clamped_page_in_range(n: nat, size: nat, requested: nat)
    requires
        size >= 1,
        n > 0,
    ensures
        clamped_page(n, size, requested) * size <= n - 1,
{
    let last = ((n - 1) as int) / (size as int);
    let c = clamped_page(n, size, requested) as int;
    lemma_remainder((n - 1) as int, size as int);
    assert(last * size <= n - 1);
    lemma_mul_inequality(c, last, size as int);
}

/// How many pages the list has: the length divided by the page size,
/// rounded up.
pub open spec fn num_pages(n: nat, size: nat) -> nat
    recommends
        size >= 1,
{
    (((n + size - 1) as int) / (size as int)) as nat
}

/// The concatenation of the first `k` pages.
pub open spec fn pages_concat(s: Seq<RecordView>, size: nat, k: nat) -> Seq<RecordView>
    decreases k,
{
    if k == 0 {
        Seq::empty()
    } else {
        pages_concat(s, size, (k - 1) as nat) + page_slice(s, size, (k - 1) as nat)
    }
}

proof fn lemma_pages_concat_take(s: Seq<RecordView>, size: nat, k: nat)
    requires
        size >= 1,
    ensures
        pages_concat(s, size, k) =~= if k * size <= s.len() {
            s.take((k * size) as int)
        } else {
            s
        },
    decreases k,
{
    if k == 0 {
        assert(k * size == 0) by (nonlinear_arith)
            requires
                k == 0,
        ;
        assert(pages_concat(s, size, k) =~= s.take((k * size) as int));
    } else {
        let p = (k - 1) as nat;
        lemma_pages_concat_take(s, size, p);
        lemma_mul_inequality(p as int, k as int, size as int);
        assert(p * size <= k * size);
        assert((p + 1) * size == p * size + size) by (nonlinear_arith);
        assert(k * size == p * size + size);
        if (k * size) <= s.len() {
            assert(pages_concat(s, size, k) =~= s.take((k * size) as int));
        } else if p * size <= s.len() {
            assert(pages_concat(s, size, k) =~= s);
        } else {
            assert(pages_concat(s, size, k) =~= s);
        }
    }
}

/// Pagination coverage: the concatenation of all pages, first to last,
/// reconstructs the whole list exactly — in order, nothing lost, nothing
/// repeated.
pub proof fn lemma_pagination_coverage(s: Seq<RecordView>, size: nat)
    requires
        size >= 1,
    ensures
        pages_concat(s, size, num_pages(s.len(), size)) == s,
{
    let n = s.len();
    let k = num_pages(n, size);
    lemma_pages_concat_take(s, size, k);
    lemma_remainder((n + size - 1) as int, size as int);
    assert(k * size >= n);
    if k * size <= n {
        assert(pages_concat(s, size, k) =~= s.take((k * size) as int));
        assert(s.take(n as int) =~= s);
    } else {
        assert(pages_concat(s, size, k) =~= s);
    }
}

} // verus!
