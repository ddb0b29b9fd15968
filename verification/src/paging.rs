//! Query parameters and the page shape that list operations return.

use vstd::prelude::*;

verus! {

/// The page size a repository applies when the caller supplies none.
pub const DEFAULT_PAGE_SIZE: usize = 10;

/// One page of a listing: the items, a cursor for the next page when more
/// items lie beyond this one, and a result code (0 on success).
#[derive(Debug)]
pub struct ResultPaging<T> {
    pub code: i64,
    pub items: Vec<T>,
    pub next_page: Option<String>,
}

/// Parameters of a config listing: an optional cursor from the previous
/// page, an optional page size, and an optional free-form query string.
#[derive(Clone, Debug)]
pub struct ConfigQueryParams {
    pub next_page: Option<String>,
    pub page_size: Option<usize>,
    pub query: Option<String>,
}

/// Parameters of an environment listing.
#[derive(Debug)]
pub struct EnvironmentQueryParams {
    pub next_page: Option<String>,
    pub page_size: Option<usize>,
}

/// The cursor a listing starts from: the supplied one, or the empty string,
/// which stands for "from the beginning".
pub open spec fn next_page_spec(next_page: Option<String>) -> Seq<char> {
    match next_page {
        Some(s) => s@,
        None => Seq::<char>::empty(),
    }
}

/// The page size a listing uses: the supplied one, or the default.
pub open spec fn page_size_spec(page_size: Option<usize>) -> usize {
    match page_size {
        Some(n) => n,
        None => DEFAULT_PAGE_SIZE,
    }
}

impl ConfigQueryParams {
    pub fn next_page(&self) -> (r: String)
        ensures
            r@ == next_page_spec(self.next_page),
    {
        match &self.next_page {
            Some(s) => s.clone(),
            None => String::new(),
        }
    }

    pub fn page_size(&self) -> (r: usize)
        ensures
            r == page_size_spec(self.page_size),
    {
        match self.page_size {
            Some(n) => n,
            None => DEFAULT_PAGE_SIZE,
        }
    }
}

impl EnvironmentQueryParams {
    pub fn next_page(&self) -> (r: String)
        ensures
            r@ == next_page_spec(self.next_page),
    {
        match &self.next_page {
            Some(s) => s.clone(),
            None => String::new(),
        }
    }

    pub fn page_size(&self) -> (r: usize)
        ensures
            r == page_size_spec(self.page_size),
    {
        match self.page_size {
            Some(n) => n,
            None => DEFAULT_PAGE_SIZE,
        }
    }
}

} // verus!
