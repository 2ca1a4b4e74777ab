//! The set of users that a user follows, kept in ascending address order
//! with no address twice, as an ordered set stores and writes it.
use crate::codec::{
    le_bytes, lemma_u32_roundtrip, overwrite, parse_key, parse_u32, read_key, read_u32,
    write_prefix, write_raw, write_u32,
};
use crate::error::BlawgdError;
use crate::state::address::{
    address_seed, base58, key_num, lemma_key_num_injective, text_seed, KeyOrder, Pubkey,
};
use vstd::prelude::*;

verus! {

/// The address bytes of a sequence of addresses.
pub open spec fn keys_of(v: Seq<Pubkey>) -> Seq<Seq<u8>> {
    v.map_values(|k: Pubkey| k@)
}

/// Every address is 32 bytes long and each is above the one before it.
pub open spec fn sorted_keys(s: Seq<Seq<u8>>) -> bool {
    &&& forall|i: int| 0 <= i < s.len() ==> #[trigger] s[i].len() == 32
    &&& forall|i: int, j: int| 0 <= i < j < s.len() ==> key_num(s[i]) < key_num(s[j])
}

/// `s` with `k` added in its place; `s` itself when it holds `k`.
pub open spec fn insert_key(s: Seq<Seq<u8>>, k: Seq<u8>) -> Seq<Seq<u8>>
    decreases s.len(),
{
    if s.len() == 0 {
        seq![k]
    } else if s[0] == k {
        s
    } else if key_num(k) < key_num(s[0]) {
        seq![k] + s
    } else {
        seq![s[0]] + insert_key(s.drop_first(), k)
    }
}

/// `s` without `k`; `s` itself when it does not hold `k`.
pub open spec fn remove_key(s: Seq<Seq<u8>>, k: Seq<u8>) -> Seq<Seq<u8>>
    decreases s.len(),
{
    if s.len() == 0 {
        s
    } else if s[0] == k {
        s.drop_first()
    } else {
        seq![s[0]] + remove_key(s.drop_first(), k)
    }
}

/// The ordered set of the addresses in `raw`, added one after another.
pub open spec fn collect_keys(raw: Seq<Seq<u8>>) -> Seq<Seq<u8>>
    decreases raw.len(),
{
    if raw.len() == 0 {
        seq![]
    } else {
        insert_key(collect_keys(raw.drop_last()), raw.last())
    }
}

/// The addresses of `s`, one after another.
pub open spec fn flatten(s: Seq<Seq<u8>>) -> Seq<u8>
    decreases s.len(),
{
    if s.len() == 0 {
        seq![]
    } else {
        s[0] + flatten(s.drop_first())
    }
}

/// `n` addresses read from the front of `s`.
pub open spec fn parse_keys(s: Seq<u8>, n: nat) -> Option<(Seq<Seq<u8>>, Seq<u8>)>
    decreases n,
{
    if n == 0 {
        Some((seq![], s))
    } else {
        match parse_key(s) {
            None => None,
            Some((k, r)) => match parse_keys(r, (n - 1) as nat) {
                None => None,
                Some((ks, r2)) => Some((seq![k] + ks, r2)),
            },
        }
    }
}

/// The stored layout of a following list: the count as a `u32`, then the
/// addresses in ascending order.
pub open spec fn enc_following(s: Seq<Seq<u8>>) -> Seq<u8> {
    le_bytes(s.len(), 4) + flatten(s)
}

/// A following list read from the front of `s`: a count, that many
/// addresses, gathered into an ordered set.
pub open spec fn parse_following(s: Seq<u8>) -> Option<(Seq<Seq<u8>>, Seq<u8>)> {
    match parse_u32(s) {
        None => None,
        Some((n, r)) => match parse_keys(r, n as nat) {
            None => None,
            Some((raw, r2)) => Some((collect_keys(raw), r2)),
        },
    }
}

// ---------------------------------------------------------------------------
// Facts about ordered sets of addresses.
/// Inserting at the place found by a scan: before the first address not
/// below `k`, or nowhere when that address is `k`.
pub proof fn lemma_insert_at(s: Seq<Seq<u8>>, k: Seq<u8>, p: int)
    requires
        sorted_keys(s),
        k.len() == 32,
        0 <= p <= s.len(),
        forall|j: int| 0 <= j < p ==> key_num(#[trigger] s[j]) < key_num(k),
        p < s.len() ==> key_num(k) <= key_num(s[p]),
    ensures
        insert_key(s, k) == if p < s.len() && s[p] == k {
            s
        } else {
            s.take(p) + seq![k] + s.skip(p)
        },
    decreases s.len(),
{
    if s.len() == 0 {
        assert(s.take(p) + seq![k] + s.skip(p) =~= seq![k]);
    } else if p == 0 {
        if s[0] != k {
            if key_num(k) == key_num(s[0]) {
                lemma_key_num_injective(k, s[0]);
            }
        }
        assert(s.take(0) + seq![k] + s.skip(0) =~= seq![k] + s);
    } else {
        assert(key_num(s[0]) < key_num(k));
        let t = s.drop_first();
        assert forall|j: int| 0 <= j < p - 1 implies key_num(#[trigger] t[j]) < key_num(k) by {
            assert(t[j] == s[j + 1]);
        }
        lemma_insert_at(t, k, p - 1);
        if p < s.len() && s[p] == k {
            assert(seq![s[0]] + t =~= s);
        } else {
            assert(seq![s[0]] + (t.take(p - 1) + seq![k] + t.skip(p - 1)) =~= s.take(p) + seq![k]
                + s.skip(p));
        }
    }
}

/// Removing the address at the place found by a scan.
pub proof fn lemma_remove_at(s: Seq<Seq<u8>>, k: Seq<u8>, p: int)
    requires
        0 <= p <= s.len(),
        forall|j: int| 0 <= j < p ==> #[trigger] s[j] != k,
        p < s.len() ==> s[p] == k,
    ensures
        remove_key(s, k) == if p < s.len() {
            s.remove(p)
        } else {
            s
        },
    decreases s.len(),
{
    if s.len() == 0 {
    } else if p == 0 {
        assert(s.remove(0) =~= s.drop_first());
    } else {
        let t = s.drop_first();
        assert forall|j: int| 0 <= j < p - 1 implies #[trigger] t[j] != k by {
            assert(t[j] == s[j + 1]);
        }
        lemma_remove_at(t, k, p - 1);
        if p < s.len() {
            assert(seq![s[0]] + t.remove(p - 1) =~= s.remove(p));
        } else {
            assert(seq![s[0]] + t =~= s);
        }
    }
}

/// Inserting keeps an ordered set ordered, adds `k` and nothing else.
pub proof fn lemma_insert_sorted(s: Seq<Seq<u8>>, k: Seq<u8>)
    requires
        sorted_keys(s),
        k.len() == 32,
    ensures
        sorted_keys(insert_key(s, k)),
        insert_key(s, k).contains(k),
        forall|x: Seq<u8>| #[trigger] insert_key(s, k).contains(x) <==> (s.contains(x) || x == k),
        s.contains(k) ==> insert_key(s, k) == s,
        !s.contains(k) ==> insert_key(s, k).len() == s.len() + 1,
    decreases s.len(),
{
    if s.len() == 0 {
        assert(insert_key(s, k) =~= seq![k]);
        assert(insert_key(s, k)[0] == k);
    } else if s[0] == k {
        assert(s.contains(k));
    } else if key_num(k) < key_num(s[0]) {
        let r = seq![k] + s;
        assert(r[0] == k);
        assert forall|x: Seq<u8>| #[trigger] r.contains(x) <==> (s.contains(x) || x == k) by {
            if r.contains(x) {
                let i = choose|i: int| 0 <= i < r.len() && r[i] == x;
                if i > 0 {
                    assert(s[i - 1] == x);
                }
            }
            if s.contains(x) {
                let i = choose|i: int| 0 <= i < s.len() && s[i] == x;
                assert(r[i + 1] == x);
            }
        }
        if s.contains(k) {
            let i = choose|i: int| 0 <= i < s.len() && s[i] == k;
            assert(key_num(s[0]) <= key_num(s[i]));
        }
    } else {
        let t = s.drop_first();
        lemma_insert_sorted(t, k);
        let it = insert_key(t, k);
        let r = seq![s[0]] + it;
        assert(key_num(s[0]) < key_num(k)) by {
            if key_num(s[0]) == key_num(k) {
                lemma_key_num_injective(s[0], k);
            }
        }
        assert forall|i: int, j: int| 0 <= i < j < r.len() implies key_num(r[i]) < key_num(
            r[j],
        ) by {
            if i == 0 {
                assert(it.contains(r[j]));
                assert(t.contains(r[j]) || r[j] == k);
                if t.contains(r[j]) {
                    let m = choose|m: int| 0 <= m < t.len() && t[m] == r[j];
                    assert(s[m + 1] == r[j]);
                }
            }
        }
        assert forall|i: int| 0 <= i < r.len() implies #[trigger] r[i].len() == 32 by {
            if i > 0 {
                assert(it.contains(r[i]));
                if t.contains(r[i]) {
                    let m = choose|m: int| 0 <= m < t.len() && t[m] == r[i];
                    assert(s[m + 1] == r[i]);
                }
            }
        }
        assert(r[0] == s[0]);
        assert forall|x: Seq<u8>| #[trigger] r.contains(x) <==> (s.contains(x) || x == k) by {
            if r.contains(x) {
                let i = choose|i: int| 0 <= i < r.len() && r[i] == x;
                if i > 0 {
                    assert(it[i - 1] == x);
                    assert(it.contains(x));
                    if t.contains(x) {
                        let m = choose|m: int| 0 <= m < t.len() && t[m] == x;
                        assert(s[m + 1] == x);
                    }
                }
            }
            if s.contains(x) {
                let i = choose|i: int| 0 <= i < s.len() && s[i] == x;
                if i > 0 {
                    assert(t[i - 1] == x);
                    assert(it.contains(x));
                    let m = choose|m: int| 0 <= m < it.len() && it[m] == x;
                    assert(r[m + 1] == x);
                }
            }
            if x == k {
                let m = choose|m: int| 0 <= m < it.len() && it[m] == x;
                assert(r[m + 1] == x);
            }
        }
        if s.contains(k) {
            let i = choose|i: int| 0 <= i < s.len() && s[i] == k;
            assert(t[i - 1] == k);
            assert(seq![s[0]] + t =~= s);
        }
    }
}

/// Removing keeps an ordered set ordered and takes `k` out.
pub proof fn lemma_remove_sorted(s: Seq<Seq<u8>>, k: Seq<u8>)
    requires
        sorted_keys(s),
    ensures
        sorted_keys(remove_key(s, k)),
        !remove_key(s, k).contains(k),
        forall|x: Seq<u8>| #[trigger] remove_key(s, k).contains(x) <==> (s.contains(x) && x != k),
        !s.contains(k) ==> remove_key(s, k) == s,
        s.contains(k) ==> remove_key(s, k).len() + 1 == s.len(),
{
    let p = if s.contains(k) {
        choose|i: int| 0 <= i < s.len() && s[i] == k
    } else {
        s.len() as int
    };
    assert forall|j: int| 0 <= j < p implies #[trigger] s[j] != k by {
        if s[j] == k {
            assert(key_num(s[j]) < key_num(s[p]));
        }
    }
    lemma_remove_at(s, k, p);
    if p < s.len() {
        let r = s.remove(p);
        assert forall|i: int, j: int| 0 <= i < j < r.len() implies key_num(r[i]) < key_num(
            r[j],
        ) by {
            if j >= p {
                assert(r[j] == s[j + 1]);
            }
            if i >= p {
                assert(r[i] == s[i + 1]);
            }
        }
        assert forall|i: int| 0 <= i < r.len() implies #[trigger] r[i].len() == 32 by {
            if i >= p {
                assert(r[i] == s[i + 1]);
            }
        }
        assert forall|x: Seq<u8>| #[trigger] r.contains(x) <==> (s.contains(x) && x != k) by {
            if r.contains(x) {
                let i = choose|i: int| 0 <= i < r.len() && r[i] == x;
                if i >= p {
                    assert(s[i + 1] == x);
                    assert(key_num(s[p]) < key_num(s[i + 1]));
                } else {
                    assert(s[i] == x);
                }
            }
            if s.contains(x) && x != k {
                let i = choose|i: int| 0 <= i < s.len() && s[i] == x;
                if i < p {
                    assert(r[i] == x);
                } else {
                    assert(r[i - 1] == x);
                }
            }
        }
    }
}

/// Following and then unfollowing an address not followed before gives
/// the set back.
pub proof fn lemma_insert_then_remove(s: Seq<Seq<u8>>, k: Seq<u8>)
    requires
        !s.contains(k),
    ensures
        remove_key(insert_key(s, k), k) == s,
    decreases s.len(),
{
    if s.len() == 0 {
    } else if s[0] == k {
        assert(s.contains(k));
    } else if key_num(k) < key_num(s[0]) {
        assert((seq![k] + s).drop_first() =~= s);
    } else {
        let t = s.drop_first();
        assert(!t.contains(k)) by {
            if t.contains(k) {
                let i = choose|i: int| 0 <= i < t.len() && t[i] == k;
                assert(s[i + 1] == k);
            }
        }
        lemma_insert_then_remove(t, k);
        let r = seq![s[0]] + insert_key(t, k);
        assert(r[0] == s[0]);
        assert(r.drop_first() =~= insert_key(t, k));
        assert(seq![s[0]] + t =~= s);
    }
}

/// Removing an address that is there makes the list one shorter.
pub proof fn lemma_remove_len(s: Seq<Seq<u8>>, k: Seq<u8>)
    requires
        s.contains(k),
    ensures
        remove_key(s, k).len() == s.len() - 1,
    decreases s.len(),
{
    if s[0] != k {
        let t = s.drop_first();
        assert(t.contains(k)) by {
            let i = choose|i: int| 0 <= i < s.len() && s[i] == k;
            assert(i > 0);
            assert(t[i - 1] == k);
        }
        lemma_remove_len(t, k);
    }
}

/// Gathering an ordered set address by address gives it back.
pub proof fn lemma_collect_sorted(s: Seq<Seq<u8>>)
    requires
        sorted_keys(s),
    ensures
        collect_keys(s) == s,
    decreases s.len(),
{
    if s.len() > 0 {
        let init = s.drop_last();
        assert(sorted_keys(init));
        lemma_collect_sorted(init);
        assert forall|j: int| 0 <= j < init.len() implies key_num(#[trigger] init[j]) < key_num(
            s.last(),
        ) by {
            assert(init[j] == s[j]);
        }
        lemma_insert_at(init, s.last(), init.len() as int);
        assert(init.take(init.len() as int) + seq![s.last()] + init.skip(init.len() as int) =~= s);
    }
}

pub proof fn lemma_parse_keys_len(s: Seq<u8>, n: nat)
    ensures
        parse_keys(s, n) matches Some((ks, _)) ==> ks.len() == n,
    decreases n,
{
    if n > 0 {
        if let Some((k, r)) = parse_key(s) {
            lemma_parse_keys_len(r, (n - 1) as nat);
        }
    }
}

pub proof fn lemma_flatten_len(s: Seq<Seq<u8>>)
    requires
        forall|i: int| 0 <= i < s.len() ==> #[trigger] s[i].len() == 32,
    ensures
        flatten(s).len() == 32 * s.len(),
    decreases s.len(),
{
    if s.len() > 0 {
        lemma_flatten_len(s.drop_first());
    }
}

pub proof fn lemma_keys_roundtrip(s: Seq<Seq<u8>>, rest: Seq<u8>)
    requires
        forall|i: int| 0 <= i < s.len() ==> #[trigger] s[i].len() == 32,
    ensures
        parse_keys(flatten(s) + rest, s.len()) == Some((s, rest)),
    decreases s.len(),
{
    if s.len() == 0 {
        assert(flatten(s) + rest =~= rest);
    } else {
        let t = s.drop_first();
        lemma_keys_roundtrip(t, rest);
        let whole = flatten(s) + rest;
        assert(whole =~= s[0] + (flatten(t) + rest));
        assert(whole.take(32) =~= s[0]);
        assert(whole.skip(32) =~= flatten(t) + rest);
        assert(seq![s[0]] + t =~= s);
    }
}

/// Reading back a stored following list gives the list.
pub proof fn lemma_following_roundtrip(s: Seq<Seq<u8>>, rest: Seq<u8>)
    requires
        sorted_keys(s),
        s.len() <= u32::MAX,
    ensures
        parse_following(enc_following(s) + rest) == Some((s, rest)),
{
    lemma_u32_roundtrip(s.len() as u32, flatten(s) + rest);
    assert(enc_following(s) + rest =~= le_bytes(s.len(), 4) + (flatten(s) + rest));
    lemma_keys_roundtrip(s, rest);
    lemma_collect_sorted(s);
}

/// Addresses read from bytes are 32 bytes long.
pub proof fn lemma_parse_keys_wf(s: Seq<u8>, n: nat)
    ensures
        parse_keys(s, n) matches Some((ks, _)) ==> forall|i: int|
            0 <= i < ks.len() ==> #[trigger] ks[i].len() == 32,
    decreases n,
{
    if n > 0 {
        if let Some((k, r)) = parse_key(s) {
            lemma_parse_keys_wf(r, (n - 1) as nat);
            if let Some((ks, r2)) = parse_keys(r, (n - 1) as nat) {
                let all = seq![k] + ks;
                assert forall|i: int| 0 <= i < all.len() implies #[trigger] all[i].len() == 32 by {
                    if i > 0 {
                        assert(all[i] == ks[i - 1]);
                    }
                }
            }
        }
    }
}

/// Gathering 32-byte addresses gives an ordered set no longer than the input.
pub proof fn lemma_collect_keys_wf(raw: Seq<Seq<u8>>)
    requires
        forall|i: int| 0 <= i < raw.len() ==> #[trigger] raw[i].len() == 32,
    ensures
        sorted_keys(collect_keys(raw)),
        collect_keys(raw).len() <= raw.len(),
    decreases raw.len(),
{
    if raw.len() > 0 {
        let init = raw.drop_last();
        assert forall|i: int| 0 <= i < init.len() implies #[trigger] init[i].len() == 32 by {
            assert(init[i] == raw[i]);
        }
        lemma_collect_keys_wf(init);
        assert(raw.last().len() == 32);
        lemma_insert_sorted(collect_keys(init), raw.last());
    }
}

/// A following list read from bytes is an ordered set of 32-byte addresses
/// whose count fits a `u32`.
pub proof fn lemma_parse_following_wf(s: Seq<u8>)
    ensures
        parse_following(s) matches Some((l, _)) ==> sorted_keys(l) && l.len() <= u32::MAX,
{
    if let Some((n, r)) = parse_u32(s) {
        lemma_parse_keys_wf(r, n as nat);
        lemma_parse_keys_len(r, n as nat);
        if let Some((raw, _)) = parse_keys(r, n as nat) {
            lemma_collect_keys_wf(raw);
        }
    }
}

// ---------------------------------------------------------------------------
/// The users that a user follows.
#[derive(Debug)]
pub struct UserFollowingList {
    list: Vec<Pubkey>,
}

impl View for UserFollowingList {
    type V = Seq<Seq<u8>>;

    closed spec fn view(&self) -> Seq<Seq<u8>> {
        keys_of(self.list@)
    }
}

impl UserFollowingList {
    #[verifier::type_invariant]
    spec fn ordered(self) -> bool {
        sorted_keys(keys_of(self.list@))
    }

    /// Nobody followed.
    pub fn default() -> (l: UserFollowingList)
        ensures
            l@ == Seq::<Seq<u8>>::empty(),
    {
        let l = UserFollowingList { list: Vec::new() };
        assert(l@ =~= Seq::<Seq<u8>>::empty());
        l
    }

    /// How many users are followed.
    pub fn len(&self) -> (n: usize)
        ensures
            n == self@.len(),
            sorted_keys(self@),
    {
        proof {
            use_type_invariant(self);
        }
        self.list.len()
    }

    /// The `i`-th followed address in ascending order.
    pub fn get(&self, i: usize) -> (k: Pubkey)
        requires
            i < self@.len(),
        ensures
            k@ == self@[i as int],
    {
        self.list[i]
    }

    /// The bytes set aside for a following list: room for 50 addresses.
    pub fn space() -> (r: Result<usize, BlawgdError>)
        ensures
            r == Ok::<usize, BlawgdError>(1600),
    {
        Ok(32 * 50)
    }

    /// The seed of the following list of `address`: the digest of
    /// `following-list-` followed by the address in base58.
    pub fn seed(address: Pubkey) -> (s: Vec<u8>)
        ensures
            s@ == text_seed("following-list-"@ + base58(address@)),
    {
        address_seed("following-list-", &address)
    }

    /// Whether `key` is followed.
    pub fn contains(&self, key: &Pubkey) -> (b: bool)
        ensures
            b == self@.contains(key@),
    {
        let mut i: usize = 0;
        while i < self.list.len()
            invariant
                i <= self.list@.len(),
                forall|j: int| 0 <= j < i ==> self.list@[j]@ != key@,
            decreases self.list@.len() - i,
        {
            if self.list[i].same(key) {
                assert(self@[i as int] == key@);
                return true;
            }
            i = i + 1;
        }
        proof {
            if self@.contains(key@) {
                let j = choose|j: int| 0 <= j < self@.len() && self@[j] == key@;
                assert(self.list@[j]@ == key@);
            }
        }
        false
    }

    /// Adds `key`; true when it was not followed before.
    pub fn insert(&mut self, key: Pubkey) -> (added: bool)
        ensures
            final(self)@ == insert_key(old(self)@, key@),
            added == !old(self)@.contains(key@),
    {
        proof {
            use_type_invariant(&*self);
        }
        let ghost s = self@;
        let mut i: usize = 0;
        let mut found = false;
        let mut passed = false;
        while i < self.list.len() && !found && !passed
            invariant
                i <= self.list@.len(),
                self@ == s,
                sorted_keys(s),
                key@.len() == 32,
                forall|j: int| 0 <= j < i ==> key_num(#[trigger] s[j]) < key_num(key@),
                found ==> i < s.len() && s[i as int] == key@,
                passed ==> i < s.len() && key_num(key@) < key_num(s[i as int]),
            decreases self.list@.len() - i + (if found || passed { 0int } else { 1int }),
        {
            assert(s[i as int] == self.list@[i as int]@);
            match self.list[i].compare(&key) {
                KeyOrder::Less => {
                    i = i + 1;
                },
                KeyOrder::Equal => {
                    found = true;
                },
                KeyOrder::Greater => {
                    passed = true;
                },
            }
        }
        proof {
            lemma_insert_at(s, key@, i as int);
            lemma_insert_sorted(s, key@);
        }
        if found {
            return false;
        }
        proof {
            if s.contains(key@) {
                let m = choose|m: int| 0 <= m < s.len() && s[m] == key@;
                if m < i {
                    assert(key_num(s[m]) < key_num(key@));
                } else if m > i {
                    assert(key_num(s[i as int]) < key_num(s[m]));
                }
            }
        }
        let mut v: Vec<Pubkey> = Vec::new();
        std::mem::swap(&mut v, &mut self.list);
        v.insert(i, key);
        assert(keys_of(v@) =~= s.take(i as int) + seq![key@] + s.skip(i as int));
        self.list = v;
        true
    }

    /// Takes `key` out; true when it was followed.
    pub fn remove(&mut self, key: &Pubkey) -> (removed: bool)
        ensures
            final(self)@ == remove_key(old(self)@, key@),
            removed == old(self)@.contains(key@),
    {
        proof {
            use_type_invariant(&*self);
        }
        let ghost s = self@;
        let mut i: usize = 0;
        while i < self.list.len()
            invariant
                i <= self.list@.len(),
                self@ == s,
                s == old(self)@,
                sorted_keys(s),
                forall|j: int| 0 <= j < i ==> #[trigger] s[j] != key@,
            decreases self.list@.len() - i,
        {
            if self.list[i].same(key) {
                assert(s[i as int] == key@);
                proof {
                    lemma_remove_at(s, key@, i as int);
                    lemma_remove_sorted(s, key@);
                }
                let mut v: Vec<Pubkey> = Vec::new();
                std::mem::swap(&mut v, &mut self.list);
                v.remove(i);
                assert(keys_of(v@) =~= s.remove(i as int));
                self.list = v;
                assert(self@ == remove_key(s, key@));
                assert(s.contains(key@));
                return true;
            }
            assert(s[i as int] == self.list@[i as int]@);
            i = i + 1;
        }
        proof {
            lemma_remove_at(s, key@, i as int);
            if s.contains(key@) {
                let j = choose|j: int| 0 <= j < s.len() && s[j] == key@;
            }
        }
        false
    }

    /// Appends the stored layout; false, appending nothing, when the count
    /// does not fit a `u32`.
    pub fn write_to(&self, out: &mut Vec<u8>) -> (ok: bool)
        ensures
            ok == (self@.len() <= u32::MAX),
            ok ==> final(out)@ == old(out)@ + enc_following(self@),
            !ok ==> final(out)@ == old(out)@,
    {
        if self.list.len() > 0xffff_ffff {
            return false;
        }
        let ghost start = out@;
        write_u32(out, self.list.len() as u32);
        assert(self@.skip(0) =~= self@);
        let mut i: usize = 0;
        while i < self.list.len()
            invariant
                i <= self.list@.len(),
                self.list@.len() <= u32::MAX,
                out@ + flatten(self@.skip(i as int)) == start + enc_following(self@),
            decreases self.list@.len() - i,
        {
            let ghost before = out@;
            let ghost rest = self@.skip(i as int);
            assert(rest[0] == self.list@[i as int]@);
            assert(rest.drop_first() =~= self@.skip(i + 1));
            write_raw(out, self.list[i].0.as_slice());
            i = i + 1;
            assert(out@ + flatten(self@.skip(i as int)) =~= before + flatten(rest));
        }
        assert(self@.skip(i as int) =~= Seq::<Seq<u8>>::empty());
        assert(out@ =~= start + enc_following(self@));
        true
    }

    /// Reads a following list at the front of `data`: the count, that many
    /// addresses, gathered into an ordered set.
    pub fn read_from(data: &[u8]) -> (r: Option<UserFollowingList>)
        ensures
            match parse_following(data@) {
                None => r is None,
                Some((v, _)) => r matches Some(l) && l@ == v,
            },
    {
        assert(data@.skip(0) =~= data@);
        let (n, mut p) = match read_u32(data, 0) {
            None => { return None; },
            Some(x) => x,
        };
        let ghost s0 = data@.skip(p as int);
        assert(parse_u32(data@) == Some((n, s0)));
        let mut raw: Vec<Pubkey> = Vec::new();
        proof {
            lemma_parse_keys_len(s0, n as nat);
            if let Some((ks, r)) = parse_keys(s0, n as nat) {
                assert(ks.skip(0) =~= ks);
                assert(keys_of(raw@) =~= ks.take(0));
            }
        }
        let mut i: u32 = 0;
        while i < n
            invariant
                i <= n,
                p <= data@.len(),
                parse_u32(data@) == Some((n, s0)),
                match parse_keys(s0, n as nat) {
                    None => parse_keys(data@.skip(p as int), (n - i) as nat) is None,
                    Some((ks, r)) => parse_keys(data@.skip(p as int), (n - i) as nat) == Some(
                        (ks.skip(i as int), r),
                    ) && keys_of(raw@) == ks.take(i as int) && ks.len() == n,
                },
            decreases n - i,
        {
            let ghost cur = data@.skip(p as int);
            match read_key(data, p) {
                None => {
                    assert(parse_keys(cur, (n - i) as nat) is None);
                    assert(parse_keys(s0, n as nat) is None);
                    assert(parse_u32(data@) == Some((n, s0)));
                    assert(parse_following(data@) is None);
                    return None;
                },
                Some((k, q)) => {
                    proof {
                        match parse_keys(s0, n as nat) {
                            None => {},
                            Some((ks, r)) => {
                                let tail = ks.skip(i as int);
                                assert(tail[0] == k@);
                                assert(tail.drop_first() =~= ks.skip(i + 1));
                                assert(keys_of(raw@.push(Pubkey(k))) =~= ks.take(i + 1));
                            },
                        }
                    }
                    raw.push(Pubkey(k));
                    p = q;
                    i = i + 1;
                },
            }
        }
        let ghost raw_keys = keys_of(raw@);
        proof {
            match parse_keys(s0, n as nat) {
                None => {
                    assert(parse_keys(data@.skip(p as int), 0) is Some);
                },
                Some((ks, r)) => {
                    assert(ks.take(n as int) =~= ks);
                },
            }
        }
        let mut list = UserFollowingList::default();
        let mut j: usize = 0;
        while j < raw.len()
            invariant
                j <= raw@.len(),
                raw_keys == keys_of(raw@),
                list@ == collect_keys(raw_keys.take(j as int)),
            decreases raw@.len() - j,
        {
            proof {
                assert(raw_keys.take(j + 1).drop_last() =~= raw_keys.take(j as int));
            }
            list.insert(raw[j]);
            j = j + 1;
        }
        assert(raw_keys.take(j as int) =~= raw_keys);
        Some(list)
    }

    /// Reads the following list kept at the front of an account's data.
    pub fn deserialize(data: &[u8]) -> (r: Result<UserFollowingList, BlawgdError>)
        ensures
            match parse_following(data@) {
                None => r matches Err(e) && e == BlawgdError::BorshIoError,
                Some((v, _)) => r matches Ok(l) && l@ == v,
            },
    {
        match UserFollowingList::read_from(data) {
            None => Err(BlawgdError::BorshIoError),
            Some(l) => Ok(l),
        }
    }

    /// Writes the following list over the front of an account's data.
    pub fn serialize(&self, data: &mut Vec<u8>) -> (r: Result<(), BlawgdError>)
        ensures
            r is Ok <==> self@.len() <= u32::MAX && enc_following(self@).len() <= old(data)@.len(),
            r is Ok ==> final(data)@ == overwrite(old(data)@, enc_following(self@)),
            r is Err ==> r == Err::<(), BlawgdError>(BlawgdError::BorshIoError) && final(data)@
                == old(data)@,
    {
        let mut bytes: Vec<u8> = Vec::new();
        if !self.write_to(&mut bytes) {
            return Err(BlawgdError::BorshIoError);
        }
        assert(bytes@ =~= enc_following(self@));
        if write_prefix(data, &bytes) {
            Ok(())
        } else {
            Err(BlawgdError::BorshIoError)
        }
    }
}

} // verus!
