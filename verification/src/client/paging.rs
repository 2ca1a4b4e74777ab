//! Paging through a numbered collection, newest first, and the keys of the
//! items on a page.
use crate::client::error::ClientError;
use crate::client::keys::{joined_key, subpost_key, user_post_key};
use crate::text::{decimal, decimal_string};
use vstd::prelude::*;

verus! {

/// How many posts of an account, or answers to a post, make a page.
pub const PER_PAGE: u64 = 30;

/// How many posts of each followed account make a page of the timeline.
pub const TIMELINE_PER_PAGE: u64 = 5;

/// The numbers `(min, max)` of the items on page `page` (from 1) of a
/// collection numbered `abs_min..=abs_max`, `per_page` to a page, the
/// highest numbers first; nothing when the page lies past the end.
pub open spec fn page_bounds(abs_min: u64, abs_max: u64, page: u64, per_page: u64) -> Option<
    (u64, u64),
> {
    let skipped = per_page * (page - 1);
    if abs_max <= skipped {
        None
    } else if abs_max > per_page {
        let max = abs_max - skipped;
        if max > per_page {
            Some(((max + 1 - per_page) as u64, max as u64))
        } else {
            Some((abs_min, max as u64))
        }
    } else {
        Some((abs_min, abs_max))
    }
}

/// The numbers of the items on a page; see [`page_bounds`].
pub fn pagination(abs_min: u64, abs_max: u64, page: u64, per_page: u64) -> (r: Result<
    (u64, u64),
    ClientError,
>)
    requires
        page >= 1,
        per_page * (page - 1) <= u64::MAX,
        per_page > 0 || abs_max < u64::MAX,
    ensures
        match page_bounds(abs_min, abs_max, page, per_page) {
            None => r == Err::<(u64, u64), ClientError>(ClientError::PageTooHigh),
            Some(b) => r == Ok::<(u64, u64), ClientError>(b),
        },
{
    let skipped = per_page * (page - 1);
    let mut max = abs_max;
    let mut min = abs_min;
    if max <= skipped {
        return Err(ClientError::PageTooHigh);
    }
    if max > per_page {
        max = max - skipped;
        if max > per_page {
            min = if per_page > 0 {
                max - per_page + 1
            } else {
                max + 1
            };
        }
    }
    Ok((min, max))
}

/// A page of a collection numbered from 1 holds numbers from 1 to the
/// collection's size, at most `per_page` of them, and starts
/// `per_page * (page - 1)` below the highest number; the first page starts
/// at the highest.
pub proof fn law_page_in_range(n: u64, page: u64, per_page: u64)
    requires
        page >= 1,
        per_page >= 1,
        page_bounds(1, n, page, per_page) is Some,
    ensures
        page_bounds(1, n, page, per_page) matches Some((lo, hi)) && 1 <= lo <= hi <= n && hi - lo
            < per_page && hi == n - per_page * (page - 1),
{
    let skipped = per_page * (page - 1);
    assert(skipped >= 0) by (nonlinear_arith)
        requires
            per_page >= 1,
            page >= 1,
            skipped == per_page * (page - 1),
    ;
    if n <= per_page {
        assert(page - 1 == 0) by (nonlinear_arith)
            requires
                per_page * (page - 1) < per_page,
                per_page >= 1,
                page >= 1,
        ;
    }
}

/// Consecutive pages meet: the next page ends just below where this one
/// starts.
pub proof fn law_pages_adjacent(n: u64, page: u64, per_page: u64)
    requires
        1 <= page < u64::MAX,
        per_page >= 1,
        page_bounds(1, n, page, per_page) is Some,
        page_bounds(1, n, (page + 1) as u64, per_page) is Some,
    ensures
        page_bounds(1, n, page, per_page) matches Some((lo, _)) && page_bounds(
            1,
            n,
            (page + 1) as u64,
            per_page,
        ) matches Some((_, hi)) && lo == hi + 1,
{
    assert(per_page * page == per_page * (page - 1) + per_page) by (nonlinear_arith);
    assert(per_page * (page - 1) >= 0) by (nonlinear_arith)
        requires
            per_page >= 1,
            page >= 1,
    ;
}

/// The page that reaches the lowest numbers ends the collection: a page
/// whose highest number is at most `per_page` starts at 1.
pub proof fn law_last_page_starts_at_one(n: u64, page: u64, per_page: u64)
    requires
        page >= 1,
        page_bounds(1, n, page, per_page) matches Some((_, hi)) && hi <= per_page,
    ensures
        page_bounds(1, n, page, per_page) matches Some((lo, _)) && lo == 1,
{
}

/// The keys `prefix{name}-{i}` for `i` from `hi` down to `lo`.
pub open spec fn keys_down(prefix: Seq<char>, name: Seq<char>, lo: u64, hi: u64) -> Seq<Seq<char>> {
    Seq::new(
        (hi - lo + 1) as nat,
        |j: int| joined_key(prefix, name, Some(decimal((hi - j) as nat))),
    )
}

/// The keys `prefix{name}-{i}` for `i` from `lo` up to `hi`.
pub open spec fn keys_up(prefix: Seq<char>, name: Seq<char>, lo: u64, hi: u64) -> Seq<Seq<char>> {
    Seq::new(
        (hi - lo + 1) as nat,
        |j: int| joined_key(prefix, name, Some(decimal((lo + j) as nat))),
    )
}

/// The views of a list of strings.
pub open spec fn strings_view(v: Seq<String>) -> Seq<Seq<char>> {
    v.map_values(|s: String| s@)
}

/// The keys of the items on one page of the collection `name` of size
/// `count`, newest first (`down`) or oldest first: none when the collection
/// is empty or the page lies past its end. Page 0 is read as page 1.
pub open spec fn page_keys(
    prefix: Seq<char>,
    name: Seq<char>,
    count: u64,
    page: u64,
    per_page: u64,
    down: bool,
) -> Seq<Seq<char>> {
    let p = if page == 0 {
        1
    } else {
        page
    };
    if count == 0 {
        Seq::empty()
    } else {
        match page_bounds(1, count, p, per_page) {
            None => Seq::empty(),
            Some((lo, hi)) => if down {
                keys_down(prefix, name, lo, hi)
            } else {
                keys_up(prefix, name, lo, hi)
            },
        }
    }
}

/// Whether reading a page would overflow while counting, as the arithmetic
/// of the page's numbers would.
pub open spec fn page_fits(count: u64, page: u64, per_page: u64) -> bool {
    let p = if page == 0 {
        1
    } else {
        page
    };
    per_page * (p - 1) <= u64::MAX && count < u64::MAX
}

/// The keys of one page of a collection, as [`page_keys`] gives them.
fn collect_page_keys(
    sub: bool,
    name: &String,
    count: u64,
    page: u64,
    per_page: u64,
    down: bool,
) -> (keys: Vec<String>)
    requires
        per_page >= 1,
        page_fits(count, page, per_page),
    ensures
        strings_view(keys@) == page_keys(
            if sub {
                "sp-"@
            } else {
                "up-"@
            },
            name@,
            count,
            page,
            per_page,
            down,
        ),
{
    let ghost prefix = if sub {
        "sp-"@
    } else {
        "up-"@
    };
    let mut keys: Vec<String> = Vec::new();
    if count == 0 {
        assert(strings_view(keys@) =~= Seq::<Seq<char>>::empty());
        return keys;
    }
    let p = if page == 0 {
        1
    } else {
        page
    };
    let (lo, hi) = match pagination(1, count, p, per_page) {
        Err(_) => {
            assert(strings_view(keys@) =~= Seq::<Seq<char>>::empty());
            return keys;
        },
        Ok(b) => b,
    };
    proof {
        law_page_in_range(count, p, per_page);
    }
    let ghost target = if down {
        keys_down(prefix, name@, lo, hi)
    } else {
        keys_up(prefix, name@, lo, hi)
    };
    let total = hi - lo + 1;
    let mut j: u64 = 0;
    while j < total
        invariant
            1 <= lo <= hi,
            total == hi - lo + 1,
            j <= total,
            target.len() == total,
            target == (if down {
                keys_down(prefix, name@, lo, hi)
            } else {
                keys_up(prefix, name@, lo, hi)
            }),
            prefix == (if sub {
                "sp-"@
            } else {
                "up-"@
            }),
            strings_view(keys@) == target.take(j as int),
        decreases total - j,
    {
        let i = if down {
            hi - j
        } else {
            lo + j
        };
        let order = decimal_string(i as u128);
        let key = if sub {
            subpost_key(name.clone(), order)
        } else {
            user_post_key(name.clone(), order)
        };
        let ghost before = keys@;
        keys.push(key);
        assert(strings_view(keys@) =~= target.take(j + 1)) by {
            assert(strings_view(keys@) =~= strings_view(before).push(key@));
        }
        j = j + 1;
    }
    assert(target.take(total as int) =~= target);
    keys
}

/// The keys of the posts of `address` on page `page`, newest first; as the
/// client asks for them.
pub fn account_post_page_keys(address: &String, post_count: u64, page: u64) -> (keys: Vec<String>)
    requires
        page_fits(post_count, page, PER_PAGE),
    ensures
        strings_view(keys@) == page_keys("up-"@, address@, post_count, page, PER_PAGE, true),
{
    collect_page_keys(false, address, post_count, page, PER_PAGE, true)
}

/// The keys of the answers to post `parent_id` on page `page`, newest first.
pub fn parent_post_page_keys(parent_id: &String, comments_count: u64, page: u64) -> (keys: Vec<
    String,
>)
    requires
        page_fits(comments_count, page, PER_PAGE),
    ensures
        strings_view(keys@) == page_keys("sp-"@, parent_id@, comments_count, page, PER_PAGE, true),
{
    collect_page_keys(true, parent_id, comments_count, page, PER_PAGE, true)
}

/// The keys of the timeline's page `page`: for each followed account whose
/// post count is known, in the order given, the keys of its page of posts,
/// oldest first.
pub open spec fn timeline_keys(followings: Seq<(Seq<char>, Option<u64>)>, page: u64) -> Seq<
    Seq<char>,
>
    decreases followings.len(),
{
    if followings.len() == 0 {
        Seq::empty()
    } else {
        let (address, count) = followings.last();
        timeline_keys(followings.drop_last(), page) + match count {
            None => Seq::empty(),
            Some(c) => page_keys("up-"@, address, c, page, TIMELINE_PER_PAGE, false),
        }
    }
}

/// The keys of the timeline's page `page`; see [`timeline_keys`].
pub fn timeline_page_keys(followings: &Vec<(String, Option<u64>)>, page: u64) -> (keys: Vec<String>)
    requires
        forall|i: int|
            0 <= i < followings@.len() ==> ((#[trigger] followings@[i]).1 matches Some(c)
                ==> page_fits(c, page, TIMELINE_PER_PAGE)),
    ensures
        strings_view(keys@) == timeline_keys(
            followings@.map_values(|f: (String, Option<u64>)| (f.0@, f.1)),
            page,
        ),
{
    let ghost fs = followings@.map_values(|f: (String, Option<u64>)| (f.0@, f.1));
    let mut keys: Vec<String> = Vec::new();
    let mut i: usize = 0;
    assert(fs.take(0) =~= Seq::<(Seq<char>, Option<u64>)>::empty());
    while i < followings.len()
        invariant
            i <= followings@.len(),
            fs == followings@.map_values(|f: (String, Option<u64>)| (f.0@, f.1)),
            forall|k: int|
                0 <= k < followings@.len() ==> ((#[trigger] followings@[k]).1 matches Some(c)
                    ==> page_fits(c, page, TIMELINE_PER_PAGE)),
            strings_view(keys@) == timeline_keys(fs.take(i as int), page),
        decreases followings@.len() - i,
    {
        let ghost before = strings_view(keys@);
        assert(fs.take(i + 1).drop_last() =~= fs.take(i as int));
        match followings[i].1 {
            None => {},
            Some(c) => {
                let mut more = collect_page_keys(
                    false,
                    &followings[i].0,
                    c,
                    page,
                    TIMELINE_PER_PAGE,
                    false,
                );
                let ghost extra = strings_view(more@);
                keys.append(&mut more);
                assert(strings_view(keys@) =~= before + extra);
            },
        }
        i = i + 1;
    }
    assert(fs.take(i as int) =~= fs);
    keys
}

} // verus!
