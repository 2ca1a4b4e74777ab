//! How the light client's blocks are kept in local storage: one entry per
//! block, under a key naming its status and height; and which entries to
//! drop when the store is pruned.
use crate::text::{
    after_first, decimal, has_prefix, parse_u64, parse_u64_spec, push_decimal, split_after,
    strip_prefix,
};
use vstd::prelude::*;
use vstd::string::StringExecFns;

verus! {

/// How far a block has come through verification.
#[derive(PartialEq, Eq, Structural, Clone, Copy, Debug)]
pub enum Status {
    Unverified,
    Verified,
    Trusted,
    Failed,
}

/// The name of a status in keys.
pub open spec fn status_name(s: Status) -> Seq<char> {
    match s {
        Status::Unverified => "unverified"@,
        Status::Verified => "verified"@,
        Status::Trusted => "trusted"@,
        Status::Failed => "failed"@,
    }
}

/// The name of a status in keys.
pub fn status_string(s: Status) -> (r: String)
    ensures
        r@ == status_name(s),
{
    match s {
        Status::Unverified => String::from_str("unverified"),
        Status::Verified => String::from_str("verified"),
        Status::Trusted => String::from_str("trusted"),
        Status::Failed => String::from_str("failed"),
    }
}

/// What the keys of blocks of a status begin with: `light-{status}-`.
pub open spec fn status_prefix(s: Status) -> Seq<char> {
    "light-"@ + status_name(s) + "-"@
}

/// The key of the block of a status at a height: `light-{status}-{height}`.
pub open spec fn block_key(s: Status, height: u64) -> Seq<char> {
    status_prefix(s) + decimal(height as nat)
}

fn prefix_string(s: Status) -> (r: String)
    ensures
        r@ == status_prefix(s),
{
    let mut r = String::from_str("light-");
    let name = status_string(s);
    r.append(name.as_str());
    r.append("-");
    r
}

/// The key of the block of a status at a height.
pub fn light_store_key(status: Status, height: u64) -> (k: String)
    ensures
        k@ == block_key(status, height),
{
    let mut k = prefix_string(status);
    push_decimal(&mut k, height as u128);
    k
}

/// The height of the block stored under `key` for a status: what follows
/// the status's prefix, read as a number; nothing when `key` is not one of
/// that status, `Some(None)` when what follows is not a number.
pub open spec fn key_height(key: Seq<char>, s: Status) -> Option<Option<u64>> {
    if has_prefix(key, status_prefix(s)) {
        Some(parse_u64_spec(key.skip(status_prefix(s).len() as int)))
    } else {
        None
    }
}

/// Whether every key of a status names a height.
pub open spec fn heights_readable(keys: Seq<Seq<char>>, s: Status) -> bool {
    forall|i: int| 0 <= i < keys.len() ==> !(#[trigger] key_height(keys[i], s) matches Some(None))
}

/// The highest height among the keys of a status, or 0 when there are none.
pub open spec fn highest_height(keys: Seq<Seq<char>>, s: Status) -> u64
    decreases keys.len(),
{
    if keys.len() == 0 {
        0
    } else {
        let h = highest_height(keys.drop_last(), s);
        match key_height(keys.last(), s) {
            Some(Some(x)) => if x > h {
                x
            } else {
                h
            },
            _ => h,
        }
    }
}

/// The lowest height among the keys of a status, or `u64::MAX` when there
/// are none.
pub open spec fn lowest_height(keys: Seq<Seq<char>>, s: Status) -> u64
    decreases keys.len(),
{
    if keys.len() == 0 {
        u64::MAX
    } else {
        let h = lowest_height(keys.drop_last(), s);
        match key_height(keys.last(), s) {
            Some(Some(x)) => if x < h {
                x
            } else {
                h
            },
            _ => h,
        }
    }
}

/// The height of one key of a status; see [`key_height`].
fn height_of(key: &String, prefix: &String, s: Status) -> (r: Option<Option<u64>>)
    requires
        prefix@ == status_prefix(s),
    ensures
        r == key_height(key@, s),
{
    match strip_prefix(key.as_str(), prefix.as_str()) {
        None => None,
        Some(rest) => Some(parse_u64(rest)),
    }
}

/// The highest or the lowest height of the blocks of a status, among the
/// keys in local storage; see [`highest_height`] and [`lowest_height`].
pub fn extreme_height(keys: &Vec<String>, status: Status, highest: bool) -> (h: u64)
    requires
        heights_readable(keys@.map_values(|k: String| k@), status),
    ensures
        highest ==> h == highest_height(keys@.map_values(|k: String| k@), status),
        !highest ==> h == lowest_height(keys@.map_values(|k: String| k@), status),
{
    let ghost ks = keys@.map_values(|k: String| k@);
    let prefix = prefix_string(status);
    let mut h: u64 = if highest {
        0
    } else {
        u64::MAX
    };
    let mut i: usize = 0;
    assert(ks.take(0) =~= Seq::<Seq<char>>::empty());
    while i < keys.len()
        invariant
            i <= keys@.len(),
            ks == keys@.map_values(|k: String| k@),
            prefix@ == status_prefix(status),
            heights_readable(ks, status),
            highest ==> h == highest_height(ks.take(i as int), status),
            !highest ==> h == lowest_height(ks.take(i as int), status),
        decreases keys@.len() - i,
    {
        assert(ks.take(i + 1).drop_last() =~= ks.take(i as int));
        assert(ks.take(i + 1).last() == keys@[i as int]@);
        let r = height_of(&keys[i], &prefix, status);
        assert(!(key_height(ks[i as int], status) matches Some(None)));
        match r {
            Some(Some(x)) => {
                if highest && x > h {
                    h = x;
                }
                if !highest && x < h {
                    h = x;
                }
            },
            _ => {},
        }
        i = i + 1;
    }
    assert(ks.take(i as int) =~= ks);
    h
}

/// A block stored under its key is found again at its height.
pub proof fn law_key_names_height(s: Status, height: u64)
    ensures
        key_height(block_key(s, height), s) == Some(Some(height)),
{
    let k = block_key(s, height);
    assert(k.take(status_prefix(s).len() as int) =~= status_prefix(s));
    assert(k.skip(status_prefix(s).len() as int) =~= decimal(height as nat));
    crate::text::law_decimal_reads_back(height);
}

/// The highest height is that of one of the keys, or 0, and no key of the
/// status has a higher one.
pub proof fn law_highest_is_highest(keys: Seq<Seq<char>>, s: Status, i: int)
    requires
        0 <= i < keys.len(),
    ensures
        key_height(keys[i], s) matches Some(Some(x)) ==> x <= highest_height(keys, s),
        key_height(keys[i], s) matches Some(Some(x)) ==> lowest_height(keys, s) <= x,
    decreases keys.len(),
{
    if i < keys.len() - 1 {
        law_highest_is_highest(keys.drop_last(), s, i);
        assert(keys.drop_last()[i] == keys[i]);
    }
}

/// How many of the newest blocks pruning keeps.
pub const MAX_NUM_BLOCKS: u64 = 10;

/// The height in a block's key of any status: what follows `light-` and
/// the next `-`, read as a number.
pub open spec fn any_block_height(key: Seq<char>) -> Option<u64> {
    match after_first(key.skip(6), '-') {
        None => None,
        Some(t) => parse_u64_spec(t),
    }
}

/// Whether pruning below `highest` can read every block key: each names a
/// height, and there is room below `highest` for the blocks kept.
pub open spec fn prune_readable(keys: Seq<Seq<char>>, highest: u64) -> bool {
    forall|i: int|
        0 <= i < keys.len() && has_prefix(#[trigger] keys[i], "light-"@) ==> any_block_height(
            keys[i],
        ) is Some && highest >= MAX_NUM_BLOCKS
}

/// Whether pruning below `highest` drops the entry under `key`: a block
/// more than ten below the highest trusted one.
pub open spec fn pruned(key: Seq<char>, highest: u64) -> bool {
    has_prefix(key, "light-"@) && (any_block_height(key) matches Some(h) && h < highest
        - MAX_NUM_BLOCKS)
}

/// The keys that pruning below `highest` drops, in the order given.
pub open spec fn pruned_keys(keys: Seq<Seq<char>>, highest: u64) -> Seq<Seq<char>> {
    keys.filter(|k: Seq<char>| pruned(k, highest))
}

/// The height in a block's key of any status; nothing for a key that is
/// not a block's.
fn any_height_of(key: &String) -> (r: Option<Option<u64>>)
    ensures
        r == if has_prefix(key@, "light-"@) {
            Some(any_block_height(key@))
        } else {
            None::<Option<u64>>
        },
{
    proof {
        reveal_strlit("light-");
    }
    match strip_prefix(key.as_str(), "light-") {
        None => None,
        Some(rest) => {
            assert(key@.skip(6) == rest@);
            match split_after(rest, '-') {
                None => Some(None),
                Some(h) => Some(parse_u64(h)),
            }
        },
    }
}

/// Whether pruning below `highest` can read every block key; see
/// [`prune_readable`].
pub fn prune_keys_readable(keys: &Vec<String>, highest: u64) -> (b: bool)
    ensures
        b == prune_readable(keys@.map_values(|k: String| k@), highest),
{
    let ghost ks = keys@.map_values(|k: String| k@);
    let mut i: usize = 0;
    while i < keys.len()
        invariant
            i <= keys@.len(),
            ks == keys@.map_values(|k: String| k@),
            forall|j: int|
                0 <= j < i && has_prefix(#[trigger] ks[j], "light-"@) ==> any_block_height(ks[j])
                    is Some && highest >= MAX_NUM_BLOCKS,
        decreases keys@.len() - i,
    {
        assert(ks[i as int] == keys@[i as int]@);
        match any_height_of(&keys[i]) {
            None => {},
            Some(h) => {
                if h.is_none() || highest < MAX_NUM_BLOCKS {
                    return false;
                }
            },
        }
        i = i + 1;
    }
    true
}

/// The keys to drop when pruning the store below `highest`; see
/// [`pruned`].
pub fn keys_to_prune(keys: &Vec<String>, highest: u64) -> (r: Vec<String>)
    requires
        prune_readable(keys@.map_values(|k: String| k@), highest),
    ensures
        r@.map_values(|k: String| k@) == pruned_keys(keys@.map_values(|k: String| k@), highest),
{
    let ghost ks = keys@.map_values(|k: String| k@);
    let mut out: Vec<String> = Vec::new();
    let mut i: usize = 0;
    assert(ks.take(0) =~= Seq::<Seq<char>>::empty());
    assert(ks.take(0).filter(|k: Seq<char>| pruned(k, highest)) =~= Seq::<Seq<char>>::empty());
    while i < keys.len()
        invariant
            i <= keys@.len(),
            ks == keys@.map_values(|k: String| k@),
            prune_readable(ks, highest),
            out@.map_values(|k: String| k@) == ks.take(i as int).filter(
                |k: Seq<char>| pruned(k, highest),
            ),
        decreases keys@.len() - i,
    {
        let key = &keys[i];
        assert(ks[i as int] == key@);
        let ghost before = out@;
        let mut drop = false;
        match strip_prefix(key.as_str(), "light-") {
            None => {},
            Some(rest) => {
                proof {
                    reveal_strlit("light-");
                    assert(key@.skip(6) == rest@);
                }
                match split_after(rest, '-') {
                    None => {},
                    Some(h) => {
                        match parse_u64(h) {
                            None => {},
                            Some(height) => {
                                if height < highest - MAX_NUM_BLOCKS {
                                    drop = true;
                                }
                            },
                        }
                    },
                }
            },
        }
        assert(drop == pruned(key@, highest)) by {
            reveal_strlit("light-");
        }
        if drop {
            out.push(key.clone());
        }
        proof {
            let t = ks.take(i + 1);
            assert(t.drop_last() =~= ks.take(i as int));
            ks.take(i as int).lemma_filter_push(key@, |k: Seq<char>| pruned(k, highest));
            assert(t =~= ks.take(i as int).push(key@));
            assert(out@.map_values(|k: String| k@) =~= if drop {
                before.map_values(|k: String| k@).push(key@)
            } else {
                before.map_values(|k: String| k@)
            });
        }
        i = i + 1;
    }
    assert(ks.take(i as int) =~= ks);
    out
}

} // verus!
