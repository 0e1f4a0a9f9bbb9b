use vstd::prelude::*;

use crate::chapter::Chapter;
use crate::errors::SyncError;
use crate::text::{str_eq, vec_contains_str};

verus! {

/// How many chapters one catalog page is asked for.
pub const PAGE_SIZE: usize = 100;

/// A fetched page contradicts the feed's own declared total when it is
/// short (or otherwise not of the requested size) although more entries
/// were still owed. Chapter enumeration cannot be trusted past that point.
pub open spec fn page_contradiction(offset: int, page_len: int, reported_total: int) -> bool {
    page_len != PAGE_SIZE && offset + page_len < reported_total
}

/// The cursor of the paginated chapter feed: how far it has read, and the
/// total the feed last declared. One unknown entry is assumed at the start
/// so the first page is always fetched.
#[derive(Debug, Clone, PartialEq, Eq)]
pub struct Pagination {
    pub offset: usize,
    pub total: usize,
}

impl Pagination {
    /// A cursor that has read nothing yet.
    pub fn new() -> (r: Pagination)
        ensures
            r.offset == 0,
            r.total == 1,
            r.more(),
    {
        Pagination { offset: 0, total: 1 }
    }

    /// Whether another page must still be fetched.
    pub open spec fn more(&self) -> bool {
        self.offset < self.total
    }

    /// Whether another page must still be fetched, executably.
    pub fn has_more(&self) -> (r: bool)
        ensures
            r == self.more(),
    {
        self.offset < self.total
    }

    /// Accounts for one fetched page: fails with `Pagination` — leaving the
    /// cursor unchanged — when the page contradicts the declared total, and
    /// otherwise adopts that total and advances by one page.
    pub fn record_page(&mut self, page_len: usize, reported_total: usize) -> (r: Result<
        (),
        SyncError,
    >)
        requires
            old(self).more(),
            old(self).offset <= usize::MAX - PAGE_SIZE,
        ensures
            page_contradiction(old(self).offset as int, page_len as int, reported_total as int)
                ==> (r matches Err(e) && e is Pagination && *final(self) == *old(self)),
            !page_contradiction(old(self).offset as int, page_len as int, reported_total as int)
                ==> (r is Ok && final(self).total == reported_total && final(self).offset == old(
                self,
            ).offset + PAGE_SIZE),
    {
        let short = page_len != PAGE_SIZE && self.offset < reported_total && reported_total
            - self.offset > page_len;
        if short {
            return Err(SyncError::Pagination);
        }
        self.total = reported_total;
        self.offset = self.offset + PAGE_SIZE;
        Ok(())
    }
}

/// Whether a chapter credits a blocked group.
pub open spec fn has_blocked_group(c: Chapter, blocked: Seq<String>) -> bool {
    exists|i: int|
        0 <= i < c.relationships@.len() && (#[trigger] c.relationships@[i]).type_field@
            == "scanlation_group"@ && (exists|j: int|
            0 <= j < blocked.len() && (#[trigger] blocked[j])@ == c.relationships@[i].id@)
}

/// Whether a chapter is kept for syncing: not hosted elsewhere, and not
/// credited to any blocked group.
pub open spec fn chapter_kept(c: Chapter, blocked: Seq<String>) -> bool {
    c.attributes.external_url is None && !has_blocked_group(c, blocked)
}

/// The chapters of one page that are kept, in page order.
pub open spec fn kept_chapters(page: Seq<Chapter>, blocked: Seq<String>) -> Seq<Chapter>
    decreases page.len(),
{
    if page.len() == 0 {
        Seq::empty()
    } else if chapter_kept(page.last(), blocked) {
        kept_chapters(page.drop_last(), blocked).push(page.last())
    } else {
        kept_chapters(page.drop_last(), blocked)
    }
}

/// Whether a chapter credits a blocked group, executably.
fn check_blocked(c: &Chapter, blocked: &Vec<String>) -> (r: bool)
    ensures
        r == has_blocked_group(*c, blocked@),
{
    let mut i: usize = 0;
    while i < c.relationships.len()
        invariant
            0 <= i <= c.relationships@.len(),
            forall|t: int|
                0 <= t < i ==> !((#[trigger] c.relationships@[t]).type_field@
                    == "scanlation_group"@ && (exists|j: int|
                    0 <= j < blocked@.len() && (#[trigger] blocked@[j])@
                        == c.relationships@[t].id@)),
        decreases c.relationships@.len() - i,
    {
        let rel = &c.relationships[i];
        if str_eq(rel.type_field.as_str(), "scanlation_group") && vec_contains_str(
            blocked,
            rel.id.as_str(),
        ) {
            return true;
        }
        i += 1;
    }
    false
}

/// Filters one fetched page down to the chapters worth syncing: drops every
/// chapter hosted elsewhere, and every chapter credited to a blocked group.
pub fn filter_chapters(page: Vec<Chapter>, blocked: &Vec<String>) -> (r: Vec<Chapter>)
    ensures
        r@ == kept_chapters(page@, blocked@),
{
    let ghost whole = page@;
    let mut rest = page;
    let mut out: Vec<Chapter> = Vec::new();
    while rest.len() > 0
        invariant
            kept_chapters(whole, blocked@) == kept_chapters(rest@, blocked@) + out@,
        decreases rest@.len(),
    {
        let ghost before = rest@;
        let c = rest.pop().unwrap();
        let keep = c.attributes.external_url.is_none() && !check_blocked(&c, blocked);
        proof {
            assert(before.last() == c);
            assert(before.drop_last() =~= rest@);
        }
        if keep {
            let ghost out_before = out@;
            out.insert(0, c);
            proof {
                assert(out@ =~= seq![c] + out_before);
                assert(kept_chapters(before, blocked@) == kept_chapters(rest@, blocked@).push(c));
                assert(kept_chapters(rest@, blocked@) + out@ =~= kept_chapters(before, blocked@)
                    + out_before);
            }
        }
    }
    proof {
        assert(rest@.len() == 0);
        assert(kept_chapters(rest@, blocked@) + out@ =~= out@);
    }
    out
}

} // verus!
