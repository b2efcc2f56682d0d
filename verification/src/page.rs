//! Offset pagination for the UI's list endpoints.

use vstd::prelude::*;

verus! {

/// A page request: one-based page number and rows per page, clamped to
/// sensible bounds by `new`.
#[derive(Clone, Copy, Debug, PartialEq, Eq, Structural)]
pub struct Page {
    pub page: i32,
    pub per_page: i32,
}

/// A page request as it arrives from the wire, unclamped.
#[derive(Clone, Copy, Debug, PartialEq, Eq, Structural)]
pub struct PageQuery {
    pub page: i32,
    pub per_page: i32,
}

/// A bare total, as the counting endpoints answer.
#[derive(Clone, Copy, Debug, PartialEq, Eq, Structural)]
pub struct Total {
    pub total: i32,
}

/// One delivered page with its position in the whole listing.
#[derive(Clone, Debug)]
pub struct PageResult<T> {
    pub page: i32,
    pub per_page: i32,
    pub total_pages: i32,
    pub total_items: i32,
    pub items: Vec<T>,
}

impl Page {
    /// Clamps the request: pages start at 1, and a page holds between 5 and
    /// 100 rows.
    pub fn new(page: i32, per_page: i32) -> (r: Self)
        ensures
            r.page == if page < 1 {
                1int
            } else {
                page as int
            },
            r.per_page == if per_page < 5 {
                5int
            } else if per_page > 100 {
                100int
            } else {
                per_page as int
            },
            1 <= r.page,
            5 <= r.per_page <= 100,
    {
        let page = if page < 1 {
            1
        } else {
            page
        };
        let per_page = if per_page < 5 {
            5
        } else if per_page > 100 {
            100
        } else {
            per_page
        };
        Self { page, per_page }
    }

    /// How many rows precede this page.
    pub fn offset(&self) -> (r: i32)
        requires
            1 <= self.page,
            0 <= self.per_page,
            (self.page - 1) * self.per_page <= i32::MAX,
        ensures
            r == (self.page - 1) * self.per_page,
    {
        proof {
            vstd::arithmetic::mul::lemma_mul_nonnegative(
                self.page - 1,
                self.per_page as int,
            );
        }
        (self.page - 1) * self.per_page
    }

    /// How many rows the page may hold.
    pub fn limit(&self) -> (r: i32)
        ensures
            r == self.per_page,
    {
        self.per_page
    }

    /// Wraps one page's rows with its position: the page count rounds the
    /// total up to whole pages, plus the trailing partial page.
    pub fn new_result<T>(&self, items: Vec<T>, total_items: i32) -> (r: PageResult<T>)
        requires
            5 <= self.per_page,
            0 <= total_items,
        ensures
            r.page == self.page,
            r.per_page == self.per_page,
            r.total_pages == total_items / self.per_page + 1,
            r.total_items == total_items,
            r.items == items,
    {
        proof {
            vstd::arithmetic::div_mod::lemma_div_pos_is_pos(total_items as int, self.per_page as int);
            vstd::arithmetic::div_mod::lemma_div_is_ordered_by_denominator(
                total_items as int,
                5,
                self.per_page as int,
            );
            vstd::arithmetic::div_mod::lemma_div_is_ordered(total_items as int, i32::MAX as int, 5);
        }
        PageResult {
            page: self.page,
            per_page: self.per_page,
            total_pages: total_items / self.per_page + 1,
            total_items,
            items,
        }
    }
}

impl Default for Page {
    /// The first page, five rows.
    fn default() -> (r: Self)
        ensures
            r.page == 1,
            r.per_page == 5,
    {
        Self { page: 1, per_page: 5 }
    }
}

} // verus!
