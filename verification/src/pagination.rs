//! Page selection for listings: defaults, bounds on the page size, the
//! offset of a page and the number of pages a listing needs.
use vstd::prelude::*;

verus! {

/// Page shown when the request names none.
pub const DEFAULT_PAGE: u32 = 1;
/// Page size used when the request names none.
pub const DEFAULT_PER_PAGE: u32 = 20;
/// Smallest page size a request can obtain.
pub const MIN_PER_PAGE: u32 = 1;
/// Largest page size a request can obtain.
pub const MAX_PER_PAGE: u32 = 250;

/// Page selection of a listing, as it arrives in a query string, and the
/// number of pages once the listing has been counted.
#[derive(Clone, Copy, Debug)]
pub struct Pagination {
    pub page: Option<u32>,
    pub per_page: Option<u32>,
    pub total_pages: Option<u32>,
}

impl Default for Pagination {
    fn default() -> (r: Self)
        ensures
            r.page is None,
            r.per_page is None,
            r.total_pages is None,
    {
        Pagination { page: None, per_page: None, total_pages: None }
    }
}

/// A page of items together with the pagination that selected it.
#[derive(Debug)]
pub struct PaginationResponse<T> {
    pub items: T,
    pub pagination: Pagination,
}

/// `v` bounded to `[lo, hi]`.
pub open spec fn clamp(v: int, lo: int, hi: int) -> int {
    if v < lo {
        lo
    } else if v > hi {
        hi
    } else {
        v
    }
}

/// Number of pages of `per_page` items needed for `items` items.
pub open spec fn pages_for(items: nat, per_page: nat) -> nat
    recommends
        per_page > 0,
{
    (items / per_page + if items % per_page > 0 { 1nat } else { 0nat }) as nat
}

impl Pagination {
    /// The requested page, the default page when none was given.
    pub open spec fn spec_page(self) -> nat {
        match self.page {
            Some(p) => p as nat,
            None => DEFAULT_PAGE as nat,
        }
    }

    /// The requested page size, defaulted and bounded to the allowed range.
    pub open spec fn spec_per_page(self) -> nat {
        let requested = match self.per_page {
            Some(p) => p as int,
            None => DEFAULT_PER_PAGE as int,
        };
        clamp(requested, MIN_PER_PAGE as int, MAX_PER_PAGE as int) as nat
    }

    /// Index of the first item on the requested page.
    pub open spec fn spec_offset(self) -> int {
        (self.spec_page() - 1) * self.spec_per_page()
    }

    /// Number of pages needed for `total_items` items at the requested page size.
    pub open spec fn spec_total_pages(self, total_items: nat) -> nat {
        pages_for(total_items, self.spec_per_page())
    }

    /// The pagination with the page and page size filled in where they were missing.
    pub open spec fn spec_with_defaults(self) -> Pagination {
        Pagination {
            page: match self.page {
                Some(p) => Some(p),
                None => Some(DEFAULT_PAGE),
            },
            per_page: match self.per_page {
                Some(p) => Some(p),
                None => Some(DEFAULT_PER_PAGE),
            },
            total_pages: self.total_pages,
        }
    }

    pub fn page(&self) -> (r: u64)
        ensures
            r == self.spec_page(),
    {
        match self.page {
            Some(p) => p as u64,
            None => DEFAULT_PAGE as u64,
        }
    }

    pub fn per_page(&self) -> (r: u64)
        ensures
            r == self.spec_per_page(),
            MIN_PER_PAGE <= r <= MAX_PER_PAGE,
    {
        let requested = match self.per_page {
            Some(p) => p,
            None => DEFAULT_PER_PAGE,
        };
        let bounded = if requested < MIN_PER_PAGE {
            MIN_PER_PAGE
        } else if requested > MAX_PER_PAGE {
            MAX_PER_PAGE
        } else {
            requested
        };
        bounded as u64
    }

    /// Index of the first item on the requested page; page 0 has none.
    pub fn offset(&self) -> (r: u64)
        requires
            self.page != Some(0u32),
        ensures
            r == self.spec_offset(),
    {
        let page = self.page();
        let per_page = self.per_page();
        assert((page - 1) * per_page <= u32::MAX * MAX_PER_PAGE) by (nonlinear_arith)
            requires
                1 <= page <= u32::MAX,
                per_page <= MAX_PER_PAGE,
        ;
        (page - 1) * per_page
    }

    pub fn with_defaults(self) -> (r: Self)
        ensures
            r == self.spec_with_defaults(),
    {
        let mut s = self;
        s.page = match s.page {
            Some(p) => Some(p),
            None => Some(DEFAULT_PAGE),
        };
        s.per_page = match s.per_page {
            Some(p) => Some(p),
            None => Some(DEFAULT_PER_PAGE),
        };
        s
    }

    /// Records how many pages `total_items` items fill; the count must fit a `u32`.
    pub fn set_total_pages(&mut self, total_items: u64)
        requires
            old(self).spec_total_pages(total_items as nat) <= u32::MAX,
        ensures
            final(self).total_pages == Some(old(self).spec_total_pages(total_items as nat) as u32),
            final(self).page == old(self).page,
            final(self).per_page == old(self).per_page,
    {
        let pages = self.calculate_total_pages(total_items);
        self.total_pages = Some(pages as u32);
    }

    pub fn calculate_total_pages(&self, total_items: u64) -> (r: u64)
        ensures
            r == self.spec_total_pages(total_items as nat),
    {
        let per_page = self.per_page();
        let full = total_items / per_page;
        let partial: u64 = if total_items % per_page > 0 { 1 } else { 0 };
        proof {
            lemma_div_bound(total_items as nat, per_page as nat);
        }
        full + partial
    }
}

proof fn lemma_div_bound(n: nat, d: nat)
    requires
        d >= 1,
        n <= u64::MAX,
    ensures
        n / d + (if n % d > 0 { 1nat } else { 0nat }) <= u64::MAX,
        n / d <= n,
{
    vstd::arithmetic::div_mod::lemma_fundamental_div_mod(n as int, d as int);
    vstd::arithmetic::div_mod::lemma_mod_pos_bound(n as int, d as int);
    let q = n / d;
    let r = n % d;
    assert(q <= n) by (nonlinear_arith)
        requires
            d >= 1,
            n == d * q + r,
            r >= 0,
            q >= 0,
    ;
    if r > 0 {
        assert(q < n) by (nonlinear_arith)
            requires
                d >= 1,
                n == d * q + r,
                r > 0,
                q >= 0,
        ;
    }
}

/// The page count covers every item and leaves no page empty: `pages`
/// pages of `per_page` items hold all `items`, and one page fewer does not.
pub proof fn lemma_total_pages_cover(p: Pagination, items: nat)
    ensures
        p.spec_total_pages(items) * p.spec_per_page() >= items,
        items > 0 ==> (p.spec_total_pages(items) - 1) * p.spec_per_page() < items,
        p.spec_total_pages(items) == 0 <==> items == 0,
{
    let d = p.spec_per_page();
    let t = p.spec_total_pages(items);
    vstd::arithmetic::div_mod::lemma_fundamental_div_mod(items as int, d as int);
    vstd::arithmetic::div_mod::lemma_mod_pos_bound(items as int, d as int);
    let q = items / d;
    let r = items % d;
    if r > 0 {
        assert(t * d == q * d + d) by (nonlinear_arith)
            requires
                t == q + 1,
        ;
        assert(items == d * q + r);
        assert((t - 1) * d == q * d) by (nonlinear_arith)
            requires
                t == q + 1,
        ;
        assert(d * q == q * d) by (nonlinear_arith);
    } else {
        assert(t == q);
        assert(d * q == q * d) by (nonlinear_arith);
        if items > 0 {
            assert(q > 0) by (nonlinear_arith)
                requires
                    items == d * q,
                    items > 0,
                    d > 0,
                    q >= 0,
            ;
            assert((t - 1) * d == q * d - d) by (nonlinear_arith)
                requires
                    t == q,
            ;
        }
    }
}

/// Consecutive pages follow one another without gap or overlap: the next
/// page starts exactly one page size after the current one.
pub proof fn lemma_pages_are_consecutive(p: Pagination)
    requires
        p.spec_page() < u32::MAX,
    ensures
        (Pagination { page: Some((p.spec_page() + 1) as u32), ..p }).spec_offset()
            == p.spec_offset() + p.spec_per_page(),
{
    let q = Pagination { page: Some((p.spec_page() + 1) as u32), ..p };
    assert(q.spec_page() == p.spec_page() + 1);
    assert(q.spec_per_page() == p.spec_per_page());
    let a = p.spec_page() as int;
    let d = p.spec_per_page() as int;
    assert((a + 1 - 1) * d == (a - 1) * d + d) by (nonlinear_arith);
}

/// The last page holds the last item: on page `total_pages` the first item
/// index is below the item count and a full page reaches past it.
pub proof fn lemma_last_page_holds_last_item(p: Pagination, items: nat)
    requires
        items > 0,
        p.spec_total_pages(items) <= u32::MAX,
    ensures
        ({
            let last = Pagination { page: Some(p.spec_total_pages(items) as u32), ..p };
            &&& last.spec_offset() < items
            &&& items <= last.spec_offset() + last.spec_per_page()
        }),
{
    lemma_total_pages_cover(p, items);
    let t = p.spec_total_pages(items);
    let last = Pagination { page: Some(t as u32), ..p };
    assert(last.spec_page() == t);
    assert(last.spec_per_page() == p.spec_per_page());
    let d = p.spec_per_page() as int;
    assert((t - 1) * d + d == t * d) by (nonlinear_arith);
}

/// Filling in the defaults changes neither the effective page nor the
/// effective page size, and doing it twice is the same as doing it once.
pub proof fn lemma_with_defaults_keeps_selection(p: Pagination)
    ensures
        p.spec_with_defaults().spec_page() == p.spec_page(),
        p.spec_with_defaults().spec_per_page() == p.spec_per_page(),
        p.spec_with_defaults().spec_with_defaults() == p.spec_with_defaults(),
        p.spec_with_defaults().page is Some,
        p.spec_with_defaults().per_page is Some,
{
}

} // verus!
