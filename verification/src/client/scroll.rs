//! Loading more posts when the reader scrolls to the bottom.
use vstd::prelude::*;

verus! {

/// The last page of posts shown.
#[derive(Debug)]
pub struct PageState {
    pub page: u64,
}

/// The page a scroll asks for: the one after the last shown, when the
/// bottom of the document is in view.
pub open spec fn requested_page(page: u64, scroll_top: int, client_height: int, scroll_height: int) -> Option<int> {
    if scroll_top + client_height >= scroll_height {
        Some(page + 1)
    } else {
        None::<int>
    }
}

/// The last page shown once a page of `post_count` posts was loaded.
pub open spec fn page_after_load(page: u64, post_count: nat) -> int {
    if post_count > 0 {
        page + 1
    } else {
        page as int
    }
}

/// Scrolling moves the last page shown forward by at most one: to the page
/// asked for when it held posts, else nowhere.
pub proof fn law_scroll_step(
    page: u64,
    scroll_top: int,
    client_height: int,
    scroll_height: int,
    post_count: nat,
)
    requires
        requested_page(page, scroll_top, client_height, scroll_height) is Some,
    ensures
        page <= page_after_load(page, post_count) <= page + 1,
        post_count > 0 ==> Some(page_after_load(page, post_count)) == requested_page(
            page,
            scroll_top,
            client_height,
            scroll_height,
        ),
        post_count == 0 ==> page_after_load(page, post_count) == page,
{
}

impl PageState {
    /// The page to load after a scroll, when the bottom of the document is
    /// in view: the one after the last shown.
    pub fn page_to_load(&self, scroll_top: i32, client_height: i32, scroll_height: i32) -> (r:
        Option<u64>)
        requires
            i32::MIN <= scroll_top + client_height <= i32::MAX,
            self.page < u64::MAX,
        ensures
            match r {
                None => requested_page(self.page, scroll_top as int, client_height as int, scroll_height as int) is None,
                Some(p) => requested_page(self.page, scroll_top as int, client_height as int, scroll_height as int) == Some(p as int),
            },
    {
        if scroll_top + client_height >= scroll_height {
            Some(self.page + 1)
        } else {
            None
        }
    }

    /// Records that a page was loaded: one more page is shown when it held
    /// any post.
    pub fn loaded(&mut self, post_count: usize)
        requires
            old(self).page < u64::MAX,
        ensures
            final(self).page == page_after_load(old(self).page, post_count as nat),
    {
        if post_count > 0 {
            self.page = self.page + 1;
        }
    }
}

/// What a getter of posts asks the client for, when one more page of a
/// list is to be shown: which list, and which page of it.
#[derive(Debug)]
pub enum PostRequest {
    /// The timeline of `address`.
    Timeline { address: String, page: u64 },
    /// The posts of `address`.
    ByAccount { address: String, page: u64 },
    /// The answers to `parent_post`.
    ByParent { parent_post: String, page: u64 },
}

/// A list of posts that is shown a page at a time.
pub trait PostGetter {
    /// The request for page `page` of the list.
    fn post_request(&self, page: u64) -> PostRequest;
}

/// The timeline of an account.
#[derive(Clone, Debug)]
pub struct TimelinePostGetter {
    pub address: String,
}

/// The posts of an account.
#[derive(Clone, Debug)]
pub struct AccountPostGetter {
    pub address: String,
}

/// The answers to a post.
#[derive(Clone, Debug)]
pub struct ParentPostGetter {
    pub parent_post: String,
}

impl PostGetter for TimelinePostGetter {
    fn post_request(&self, page: u64) -> (r: PostRequest)
        ensures
            r matches PostRequest::Timeline { address, page: p } && address@ == self.address@ && p
                == page,
    {
        PostRequest::Timeline { address: self.address.clone(), page }
    }
}

impl PostGetter for AccountPostGetter {
    fn post_request(&self, page: u64) -> (r: PostRequest)
        ensures
            r matches PostRequest::ByAccount { address, page: p } && address@ == self.address@ && p
                == page,
    {
        PostRequest::ByAccount { address: self.address.clone(), page }
    }
}

impl PostGetter for ParentPostGetter {
    fn post_request(&self, page: u64) -> (r: PostRequest)
        ensures
            r matches PostRequest::ByParent { parent_post, page: p } && parent_post@
                == self.parent_post@ && p == page,
    {
        PostRequest::ByParent { parent_post: self.parent_post.clone(), page }
    }
}

} // verus!
