//! Paging through the results of a search.

use crate::text::{clone_opt, opt_view, same};
use vstd::prelude::*;

verus! {

/// One page of a search: how many results, from which one on, and what is
/// searched for.
#[derive(Debug, PartialEq, Eq)]
pub struct Page {
    pub size: u32,
    pub offset: u32,
    pub search: Option<String>,
}

/// Where a reader stands in the results of a search.
#[derive(Debug, PartialEq, Eq)]
pub struct Paginator {
    pub offset: u32,
    /// The last offset that is known to hold results.
    pub max_offset: u32,
    pub size: u32,
    pub search: Option<String>,
}

/// The number of results on a page where none is asked for.
pub const DEFAULT_PAGE_SIZE: u32 = 50;

impl Default for Paginator {
    fn default() -> (r: Self)
        ensures
            r.offset == 0,
            r.max_offset == u32::MAX,
            r.size == DEFAULT_PAGE_SIZE,
            r.search is None,
    {
        Self::new(DEFAULT_PAGE_SIZE)
    }
}

fn same_search(a: &Option<String>, b: &Option<String>) -> (r: bool)
    ensures
        r == (opt_view(*a) == opt_view(*b)),
{
    match (a, b) {
        (None, None) => true,
        (Some(x), Some(y)) => same(x.as_str(), y.as_str()),
        _ => false,
    }
}

impl Paginator {
    /// The page that the paginator stands on.
    pub open spec fn page(&self) -> Page {
        Page { size: self.size, offset: self.offset, search: self.search }
    }

    /// A paginator on the first page of no search, with pages of `size`.
    pub fn new(size: u32) -> (r: Self)
        ensures
            r.offset == 0,
            r.max_offset == u32::MAX,
            r.size == size,
            r.search is None,
    {
        Self { offset: 0, max_offset: u32::MAX, size, search: None }
    }

    /// The page that the paginator stands on.
    pub fn cur(&self) -> (r: Page)
        ensures
            r == self.page(),
    {
        Page { size: self.size, offset: self.offset, search: clone_opt(&self.search) }
    }

    /// Goes back one page, to the first at most.
    pub fn prev(&mut self) -> (r: Page)
        ensures
            final(self).offset == if old(self).offset >= old(self).size {
                (old(self).offset - old(self).size) as u32
            } else {
                0
            },
            final(self).max_offset == old(self).max_offset,
            final(self).size == old(self).size,
            final(self).search == old(self).search,
            r == final(self).page(),
    {
        self.offset = if self.offset >= self.size {
            self.offset - self.size
        } else {
            0
        };
        self.cur()
    }

    /// Goes on one page, to the last known at most.
    pub fn next(&mut self) -> (r: Page)
        ensures
            final(self).offset == ({
                let sum = old(self).offset + old(self).size;
                let reach = if sum > u32::MAX {
                    u32::MAX as int
                } else {
                    sum
                };
                if reach < old(self).max_offset {
                    reach
                } else {
                    old(self).max_offset as int
                }
            }),
            final(self).max_offset == old(self).max_offset,
            final(self).size == old(self).size,
            final(self).search == old(self).search,
            r == final(self).page(),
    {
        let reach: u32 = if self.size > u32::MAX - self.offset {
            u32::MAX
        } else {
            self.offset + self.size
        };
        self.offset = if reach < self.max_offset {
            reach
        } else {
            self.max_offset
        };
        self.cur()
    }

    /// Takes up another search, from its first page; the same search again
    /// changes nothing.
    pub fn set_search(&mut self, search: Option<String>)
        ensures
            final(self).size == old(self).size,
            opt_view(search) == opt_view(old(self).search) ==> *final(self) == *old(self),
            opt_view(search) != opt_view(old(self).search) ==> {
                &&& final(self).offset == 0
                &&& final(self).max_offset == u32::MAX
                &&& final(self).search == search
            },
    {
        if !same_search(&search, &self.search) {
            self.offset = 0;
            self.max_offset = u32::MAX;
            self.search = search;
        }
    }

    /// Takes note of how many results the page held: fewer than a page
    /// holds mean that this is the last page; none at all, on pages that
    /// hold none, that the last one lies before.
    pub fn clamp_offset(&mut self, cur_result_count: u32)
        ensures
            final(self).offset == old(self).offset,
            final(self).size == old(self).size,
            final(self).search == old(self).search,
            final(self).max_offset == if cur_result_count < old(self).size {
                old(self).offset
            } else if cur_result_count == 0 {
                if old(self).offset >= 1 {
                    (old(self).offset - 1) as u32
                } else {
                    0
                }
            } else {
                old(self).max_offset
            },
    {
        if cur_result_count < self.size {
            self.max_offset = self.offset;
        } else if cur_result_count == 0 {
            self.max_offset = if self.offset >= 1 {
                self.offset - 1
            } else {
                0
            };
        }
    }
}

} // verus!
