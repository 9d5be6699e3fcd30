//! Page/size handling for list endpoints.

use vstd::prelude::*;

verus! {

/// Page used when the query names none.
pub const DEFAULT_PAGE: u32 = 1;

/// Page size used when the query names none.
pub const DEFAULT_PER_PAGE: u32 = 20;

/// Largest page size a query may ask for.
pub const MAX_PER_PAGE: u32 = 100;

/// Raw pagination parameters as they arrive in a query string.
pub struct PaginationQuery {
    pub page: Option<u32>,
    pub per_page: Option<u32>,
}

impl PaginationQuery {
    /// The effective page: the requested one, raised to at least 1.
    pub open spec fn effective_page(self) -> u32 {
        match self.page {
            None => DEFAULT_PAGE,
            Some(p) => if p < 1 { 1 } else { p },
        }
    }

    /// The effective page size: the requested one, clamped into `1..=MAX_PER_PAGE`.
    pub open spec fn effective_per_page(self) -> u32 {
        match self.per_page {
            None => DEFAULT_PER_PAGE,
            Some(p) => if p < 1 { 1 } else if p > MAX_PER_PAGE { MAX_PER_PAGE } else { p },
        }
    }

    /// Number of items that precede the effective page.
    pub open spec fn spec_offset(self) -> int {
        (self.effective_page() - 1) * self.effective_per_page()
    }

    pub fn page(&self) -> (r: u32)
        ensures
            r == self.effective_page(),
            r >= 1,
    {
        match self.page {
            None => DEFAULT_PAGE,
            Some(p) => if p < 1 { 1 } else { p },
        }
    }

    pub fn per_page(&self) -> (r: u32)
        ensures
            r == self.effective_per_page(),
            1 <= r <= MAX_PER_PAGE,
    {
        match self.per_page {
            None => DEFAULT_PER_PAGE,
            Some(p) => if p < 1 { 1 } else if p > MAX_PER_PAGE { MAX_PER_PAGE } else { p },
        }
    }

    /// Offset of the first item of the page. The product is computed in `u32`,
    /// so pages whose offset does not fit are left out.
    pub fn offset(&self) -> (r: u32)
        requires
            self.spec_offset() <= u32::MAX,
        ensures
            r == self.spec_offset(),
    {
        let page = self.page();
        let per_page = self.per_page();
        proof {
            assert(0 <= (page - 1) * per_page) by (nonlinear_arith)
                requires page >= 1, per_page >= 1;
        }
        (page - 1) * per_page
    }
}

impl Default for PaginationQuery {
    fn default() -> (r: Self)
        ensures
            r.page == Some(DEFAULT_PAGE),
            r.per_page == Some(DEFAULT_PER_PAGE),
    {
        PaginationQuery { page: Some(DEFAULT_PAGE), per_page: Some(DEFAULT_PER_PAGE) }
    }
}

/// Page bookkeeping returned next to a list of items.
pub struct PaginationMeta {
    pub page: u32,
    pub per_page: u32,
    pub total_pages: u32,
    pub total_items: u64,
}

/// Number of pages of `per_page` items needed for `total_items` items,
/// saturated at `u32::MAX`. With a page size of zero, no items need no
/// pages and any item needs "infinitely many", which saturates.
pub open spec fn pages_needed(per_page: u32, total_items: u64) -> int {
    if per_page == 0 {
        if total_items == 0 { 0 } else { u32::MAX as int }
    } else {
        let q = (total_items + per_page - 1) / (per_page as int);
        if q > u32::MAX { u32::MAX as int } else { q }
    }
}

impl PaginationMeta {
    pub fn new(page: u32, per_page: u32, total_items: u64) -> (r: Self)
        ensures
            r.page == page,
            r.per_page == per_page,
            r.total_items == total_items,
            r.total_pages == pages_needed(per_page, total_items),
    {
        let total_pages: u32 = if per_page == 0 {
            if total_items == 0 { 0 } else { u32::MAX }
        } else {
            let pp = per_page as u64;
            let d = total_items / pp;
            let m = total_items % pp;
            proof {
                vstd::arithmetic::div_mod::lemma_fundamental_div_mod(total_items as int, pp as int);
            }
            let q: u64 = if m == 0 {
                d
            } else {
                proof {
                    assert(d < u64::MAX) by (nonlinear_arith)
                        requires
                            pp >= 1,
                            m > 0,
                            d * pp + m == total_items,
                            total_items <= u64::MAX,
                    ;
                }
                d + 1
            };
            proof {
                let t = total_items as int;
                let p = pp as int;
                assert(q == (t + p - 1) / p) by (nonlinear_arith)
                    requires
                        p >= 1,
                        t >= 0,
                        q == t / p + if t % p == 0 { 0int } else { 1int },
                {
                    assert(t == p * (t / p) + t % p);
                    assert(0 <= t % p < p);
                }
            }
            if q > u32::MAX as u64 { u32::MAX } else { q as u32 }
        };
        PaginationMeta { page, per_page, total_pages, total_items }
    }
}

} // verus!
