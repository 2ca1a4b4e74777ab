//! The parts of reading verified data that decide: which fetched entries
//! answer which keys, what an empty value means, how a following list is
//! read, and when the arguments of a Merkle check are well formed.
use crate::client::error::ClientError;
use crate::codec::string_from_utf8;
use vstd::prelude::*;
use vstd::string::{StrSliceExecFns, StringExecFns};

verus! {

/// Values and their proofs, each under its key, as the chain answers a
/// query.
#[derive(Debug)]
pub struct GetResponse {
    pub data: Vec<(String, Vec<u8>)>,
    pub proofs: Vec<(String, Vec<u8>)>,
}

/// Entries under their keys.
pub open spec fn entries_view(v: Seq<(String, Vec<u8>)>) -> Seq<(Seq<char>, Seq<u8>)> {
    v.map_values(|e: (String, Vec<u8>)| (e.0@, e.1@))
}

/// The content of a [`GetResponse`].
pub struct GetResponseData {
    pub data: Seq<(Seq<char>, Seq<u8>)>,
    pub proofs: Seq<(Seq<char>, Seq<u8>)>,
}

impl View for GetResponse {
    type V = GetResponseData;

    open spec fn view(&self) -> GetResponseData {
        GetResponseData { data: entries_view(self.data@), proofs: entries_view(self.proofs@) }
    }
}

/// The client's settings for reading: whether to check proofs, and data
/// fetched ahead with the root it was fetched at.
#[derive(Debug)]
pub struct VerificationClient {
    pub verify: bool,
    pub prefetch: Option<(Vec<u8>, GetResponse)>,
}

impl VerificationClient {
    /// A client that checks proofs when `verify` holds and has nothing
    /// fetched ahead.
    pub fn new(verify: bool) -> (c: VerificationClient)
        ensures
            c.verify == verify,
            c.prefetch is None,
    {
        VerificationClient { verify, prefetch: None }
    }

    /// Answers later reads from `prefetch`, fetched at `root`.
    pub fn with_prefetch(&mut self, root: Vec<u8>, prefetch: GetResponse)
        ensures
            final(self).verify == old(self).verify,
            final(self).prefetch matches Some((r, p)) && r@ == root@ && p@ == prefetch@,
    {
        self.prefetch = Some((root, prefetch))
    }
}

/// The bytes under `key`: those of the first entry with that key.
pub open spec fn find_entry(m: Seq<(Seq<char>, Seq<u8>)>, key: Seq<char>) -> Option<Seq<u8>>
    decreases m.len(),
{
    if m.len() == 0 {
        None
    } else if m[0].0 == key {
        Some(m[0].1)
    } else {
        find_entry(m.drop_first(), key)
    }
}

pub(crate) fn find_bytes(m: &Vec<(String, Vec<u8>)>, key: &String) -> (r: Option<Vec<u8>>)
    ensures
        match find_entry(entries_view(m@), key@) {
            None => r is None,
            Some(b) => r matches Some(x) && x@ == b,
        },
{
    let ghost e = entries_view(m@);
    let mut i: usize = 0;
    assert(e.skip(0) =~= e);
    while i < m.len()
        invariant
            i <= m@.len(),
            e == entries_view(m@),
            find_entry(e, key@) == find_entry(e.skip(i as int), key@),
        decreases m@.len() - i,
    {
        assert(e.skip(i as int)[0] == e[i as int]);
        if m[i].0 == *key {
            return Some(m[i].1.clone());
        }
        assert(e.skip(i as int).drop_first() =~= e.skip(i + 1));
        i = i + 1;
    }
    None
}

/// The keys in order, each once: a key asked for again is dropped.
pub open spec fn distinct_keys(keys: Seq<Seq<char>>) -> Seq<Seq<char>>
    decreases keys.len(),
{
    if keys.len() == 0 {
        Seq::empty()
    } else if keys.drop_last().contains(keys.last()) {
        distinct_keys(keys.drop_last())
    } else {
        distinct_keys(keys.drop_last()).push(keys.last())
    }
}

/// The entries of `m` for each of `keys` in order, each key once, when all
/// are there.
pub open spec fn select_entries(m: Seq<(Seq<char>, Seq<u8>)>, keys: Seq<Seq<char>>) -> Option<
    Seq<(Seq<char>, Seq<u8>)>,
>
    decreases keys.len(),
{
    if keys.len() == 0 {
        Some(Seq::empty())
    } else {
        match select_entries(m, keys.drop_last()) {
            None => None,
            Some(s) => if keys.drop_last().contains(keys.last()) {
                Some(s)
            } else {
                match find_entry(m, keys.last()) {
                    None => None,
                    Some(b) => Some(s.push((keys.last(), b))),
                }
            },
        }
    }
}

/// Each key in `keys` once, in order, and each with its bytes in `m`.
pub proof fn lemma_select_entries_shape(m: Seq<(Seq<char>, Seq<u8>)>, keys: Seq<Seq<char>>)
    requires
        select_entries(m, keys) is Some,
    ensures
        ({
            let d = select_entries(m, keys)->Some_0;
            &&& d.len() == distinct_keys(keys).len()
            &&& forall|i: int| 0 <= i < d.len() ==> (#[trigger] d[i]).0 == distinct_keys(keys)[i]
                && find_entry(m, d[i].0) == Some(d[i].1)
        }),
    decreases keys.len(),
{
    if keys.len() > 0 {
        lemma_select_entries_shape(m, keys.drop_last());
    }
}

/// The keys kept are those asked for, each once.
pub proof fn lemma_distinct_keys(keys: Seq<Seq<char>>)
    ensures
        forall|k: Seq<char>| #[trigger] distinct_keys(keys).contains(k) <==> keys.contains(k),
        forall|i: int, j: int|
            0 <= i < j < distinct_keys(keys).len() ==> #[trigger] distinct_keys(keys)[i]
                != #[trigger] distinct_keys(keys)[j],
    decreases keys.len(),
{
    if keys.len() > 0 {
        let init = keys.drop_last();
        let last = keys.last();
        lemma_distinct_keys(init);
        let d0 = distinct_keys(init);
        let dk = distinct_keys(keys);
        assert(keys =~= init.push(last));
        if init.contains(last) {
            assert(dk == d0);
        } else {
            assert(dk == d0.push(last));
        }
        assert forall|k: Seq<char>| #[trigger] dk.contains(k) <==> keys.contains(k) by {
            if keys.contains(k) {
                let i = choose|i: int| 0 <= i < keys.len() && keys[i] == k;
                if i < keys.len() - 1 {
                    assert(init[i] == k);
                    assert(init.contains(k));
                    assert(d0.contains(k));
                    let a = choose|a: int| 0 <= a < d0.len() && d0[a] == k;
                    assert(dk[a] == k);
                } else if init.contains(last) {
                    assert(d0.contains(last));
                    let a = choose|a: int| 0 <= a < d0.len() && d0[a] == last;
                    assert(dk[a] == k);
                } else {
                    assert(dk[d0.len() as int] == k);
                }
            }
            if dk.contains(k) {
                let i = choose|i: int| 0 <= i < dk.len() && dk[i] == k;
                if i < d0.len() {
                    assert(d0[i] == k);
                    assert(d0.contains(k));
                    assert(init.contains(k));
                    let j = choose|j: int| 0 <= j < init.len() && init[j] == k;
                    assert(keys[j] == k);
                } else {
                    assert(keys[keys.len() - 1] == k);
                }
            }
        }
        if !init.contains(last) {
            assert(!d0.contains(last));
            assert forall|i: int, j: int| 0 <= i < j < dk.len() implies #[trigger] dk[i] != #[trigger] dk[j] by {
                if j == d0.len() {
                    assert(dk[i] == d0[i]);
                    assert(d0.contains(d0[i]));
                } else {
                    assert(dk[i] == d0[i] && dk[j] == d0[j]);
                }
            }
        }
    }
}

/// Whether `keys[i]` is among the keys before it.
fn asked_before(keys: &Vec<String>, i: usize) -> (b: bool)
    requires
        i < keys@.len(),
    ensures
        b == keys@.map_values(|k: String| k@).take(i as int).contains(keys@[i as int]@),
{
    let ghost ks = keys@.map_values(|k: String| k@);
    let mut j: usize = 0;
    while j < i
        invariant
            j <= i < keys@.len(),
            ks == keys@.map_values(|k: String| k@),
            forall|a: int| 0 <= a < j ==> ks[a] != ks[i as int],
        decreases i - j,
    {
        if keys[j] == keys[i] {
            assert(ks.take(i as int)[j as int] == ks[i as int]);
            return true;
        }
        j = j + 1;
    }
    assert forall|a: int| 0 <= a < i implies ks.take(i as int)[a] != ks[i as int] by {}
    false
}

/// The values and the proofs for `keys` out of data fetched ahead, each key
/// once; fails with `MissingPrefetchedKey` when a key lacks either.
pub fn select_prefetched(resp: &GetResponse, keys: &Vec<String>) -> (r: Result<
    (Vec<(String, Vec<u8>)>, Vec<(String, Vec<u8>)>),
    ClientError,
>)
    ensures
        ({
            let ks = keys@.map_values(|k: String| k@);
            match (select_entries(resp@.data, ks), select_entries(resp@.proofs, ks)) {
                (Some(d), Some(p)) => r matches Ok((x, y)) && entries_view(x@) == d
                    && entries_view(y@) == p,
                _ => r == Err::<(Vec<(String, Vec<u8>)>, Vec<(String, Vec<u8>)>), ClientError>(
                    ClientError::MissingPrefetchedKey,
                ),
            }
        }),
{
    let ghost ks = keys@.map_values(|k: String| k@);
    let mut data: Vec<(String, Vec<u8>)> = Vec::new();
    let mut proofs: Vec<(String, Vec<u8>)> = Vec::new();
    let mut i: usize = 0;
    assert(ks.take(0) =~= Seq::<Seq<char>>::empty());
    assert(entries_view(data@) =~= Seq::<(Seq<char>, Seq<u8>)>::empty());
    while i < keys.len()
        invariant
            i <= keys@.len(),
            ks == keys@.map_values(|k: String| k@),
            select_entries(resp@.data, ks.take(i as int)) == Some(entries_view(data@)),
            select_entries(resp@.proofs, ks.take(i as int)) == Some(entries_view(proofs@)),
        decreases keys@.len() - i,
    {
        let key = &keys[i];
        assert(ks.take(i + 1).drop_last() =~= ks.take(i as int));
        assert(ks.take(i + 1).last() == key@);
        if asked_before(keys, i) {
            i = i + 1;
            continue;
        }
        let d = match find_bytes(&resp.data, key) {
            None => {
                proof {
                    lemma_select_extends(resp@.data, ks, i as int);
                }
                return Err(ClientError::MissingPrefetchedKey);
            },
            Some(d) => d,
        };
        let p = match find_bytes(&resp.proofs, key) {
            None => {
                proof {
                    lemma_select_extends(resp@.proofs, ks, i as int);
                }
                return Err(ClientError::MissingPrefetchedKey);
            },
            Some(p) => p,
        };
        let ghost dv = d@;
        let ghost pv = p@;
        data.push((key.clone(), d));
        proofs.push((key.clone(), p));
        assert(entries_view(data@) =~= select_entries(resp@.data, ks.take(i + 1))->Some_0);
        assert(entries_view(proofs@) =~= select_entries(resp@.proofs, ks.take(i + 1))->Some_0);
        i = i + 1;
    }
    assert(ks.take(i as int) =~= ks);
    Ok((data, proofs))
}

/// When the entries for the first `i + 1` keys are missing, so are those
/// for all the keys.
proof fn lemma_select_extends(m: Seq<(Seq<char>, Seq<u8>)>, ks: Seq<Seq<char>>, i: int)
    requires
        0 <= i < ks.len(),
        select_entries(m, ks.take(i)) is Some,
        !ks.take(i).contains(ks[i]),
        find_entry(m, ks[i]) is None,
    ensures
        select_entries(m, ks) is None,
    decreases ks.len() - i,
{
    assert(ks.take(i + 1).drop_last() =~= ks.take(i));
    assert(select_entries(m, ks.take(i + 1)) is None);
    lemma_select_none_grows(m, ks, i + 1);
}

proof fn lemma_select_none_grows(m: Seq<(Seq<char>, Seq<u8>)>, ks: Seq<Seq<char>>, j: int)
    requires
        0 <= j <= ks.len(),
        select_entries(m, ks.take(j)) is None,
    ensures
        select_entries(m, ks) is None,
    decreases ks.len() - j,
{
    if j == ks.len() {
        assert(ks.take(j) =~= ks);
    } else {
        assert(ks.take(j + 1).drop_last() =~= ks.take(j));
        lemma_select_none_grows(m, ks, j + 1);
    }
}

/// What reading a key gives: nothing for an empty value, the value
/// otherwise.
pub open spec fn present(v: Seq<u8>) -> Option<Seq<u8>> {
    if v.len() == 0 {
        None
    } else {
        Some(v)
    }
}

/// The entries with empty values read as absent; see [`present`].
pub fn present_values(data: Vec<(String, Vec<u8>)>) -> (r: Vec<(String, Option<Vec<u8>>)>)
    ensures
        r@.len() == data@.len(),
        forall|i: int|
            0 <= i < r@.len() ==> (#[trigger] r@[i]).0@ == data@[i].0@ && match r@[i].1 {
                None => present(data@[i].1@) is None,
                Some(v) => present(data@[i].1@) == Some(v@),
            },
{
    let mut out: Vec<(String, Option<Vec<u8>>)> = Vec::new();
    let mut i: usize = 0;
    while i < data.len()
        invariant
            i <= data@.len(),
            out@.len() == i,
            forall|k: int|
                0 <= k < i ==> (#[trigger] out@[k]).0@ == data@[k].0@ && match out@[k].1 {
                    None => present(data@[k].1@) is None,
                    Some(v) => present(data@[k].1@) == Some(v@),
                },
        decreases data@.len() - i,
    {
        let k = data[i].0.clone();
        let v = if data[i].1.len() == 0 {
            None
        } else {
            Some(data[i].1.clone())
        };
        out.push((k, v));
        i = i + 1;
    }
    out
}

/// The pieces of `s` between the occurrences of `c`, as `str::split` gives
/// them: one more piece than there are `c`, empty pieces included.
pub open spec fn split_on(s: Seq<char>, c: char) -> Seq<Seq<char>>
    decreases s.len(),
{
    if s.len() == 0 {
        seq![Seq::empty()]
    } else {
        let r = split_on(s.drop_last(), c);
        if s.last() == c {
            r.push(Seq::empty())
        } else {
            r.update(r.len() - 1, r.last().push(s.last()))
        }
    }
}

proof fn lemma_split_nonempty(s: Seq<char>, c: char)
    ensures
        split_on(s, c).len() >= 1,
    decreases s.len(),
{
    if s.len() > 0 {
        lemma_split_nonempty(s.drop_last(), c);
    }
}

/// Splits `s` at every `c`; see [`split_on`].
pub fn split_string(s: &str, c: char) -> (r: Vec<String>)
    ensures
        r@.map_values(|x: String| x@) == split_on(s@, c),
{
    let n = s.unicode_len();
    let mut pieces: Vec<String> = Vec::new();
    let mut start: usize = 0;
    let mut i: usize = 0;
    assert(s@.take(0) =~= Seq::<char>::empty());
    assert(pieces@.map_values(|x: String| x@).push(s@.subrange(0, 0)) =~= split_on(
        s@.take(0),
        c,
    ));
    while i < n
        invariant
            n == s@.len(),
            start <= i <= n,
            pieces@.map_values(|x: String| x@).push(s@.subrange(start as int, i as int))
                == split_on(s@.take(i as int), c),
        decreases n - i,
    {
        let ghost before = pieces@.map_values(|x: String| x@);
        let ghost t = s@.take(i + 1);
        assert(t.drop_last() =~= s@.take(i as int));
        assert(t.last() == s@[i as int]);
        proof {
            lemma_split_nonempty(s@.take(i as int), c);
        }
        if s.get_char(i) == c {
            let piece = String::from_str(s.substring_char(start, i));
            let ghost old_start = start;
            pieces.push(piece);
            start = i + 1;
            assert(pieces@.map_values(|x: String| x@) =~= before.push(
                s@.subrange(old_start as int, i as int),
            ));
            assert(s@.subrange(start as int, i + 1) =~= Seq::<char>::empty());
            assert(pieces@.map_values(|x: String| x@).push(s@.subrange(start as int, i + 1))
                =~= split_on(t, c));
        } else {
            assert(s@.subrange(start as int, i + 1) =~= s@.subrange(start as int, i as int).push(
                s@[i as int],
            ));
            assert(pieces@.map_values(|x: String| x@).push(s@.subrange(start as int, i + 1))
                =~= split_on(t, c));
        }
        i = i + 1;
    }
    let last = String::from_str(s.substring_char(start, n));
    pieces.push(last);
    assert(s@.take(n as int) =~= s@);
    assert(pieces@.map_values(|x: String| x@) =~= split_on(s@, c));
    pieces
}

/// The addresses a user follows, as stored under their following key: none
/// when nothing is stored, else the stored text split at commas; fails with
/// `InvalidUtf8` when the bytes are not text.
pub fn parse_following_list(raw: Option<Vec<u8>>) -> (r: Result<Vec<String>, ClientError>)
    ensures
        match raw {
            None => r matches Ok(v) && v@.len() == 0,
            Some(b) => if vstd::utf8::valid_utf8(b@) {
                r matches Ok(v) && v@.map_values(|x: String| x@) == split_on(
                    vstd::utf8::decode_utf8(b@),
                    ',',
                )
            } else {
                r == Err::<Vec<String>, ClientError>(ClientError::InvalidUtf8)
            },
        },
{
    match raw {
        None => Ok(Vec::new()),
        Some(b) => match string_from_utf8(b) {
            None => Err(ClientError::InvalidUtf8),
            Some(text) => Ok(split_string(text.as_str(), ',')),
        },
    }
}

/// The arguments of a Merkle check are well formed: a proof, a root, as
/// many proofs as proof specs, and as many path segments as proof specs.
/// The first failing condition, in that order, gives the error.
pub fn validate_membership_args(
    spec_count: usize,
    proof_count: usize,
    root: &[u8],
    path_len: usize,
) -> (r: Result<(), ClientError>)
    ensures
        proof_count == 0 ==> r == Err::<(), ClientError>(ClientError::EmptyProof),
        proof_count > 0 && root@.len() == 0 ==> r == Err::<(), ClientError>(ClientError::EmptyRoot),
        proof_count > 0 && root@.len() > 0 && proof_count != spec_count ==> r == Err::<
            (),
            ClientError,
        >(ClientError::ProofCountMismatch),
        proof_count > 0 && root@.len() > 0 && proof_count == spec_count && path_len != spec_count
            ==> r == Err::<(), ClientError>(ClientError::PathLengthMismatch),
        proof_count > 0 && root@.len() > 0 && proof_count == spec_count && path_len == spec_count
            ==> r is Ok,
{
    if proof_count == 0 {
        return Err(ClientError::EmptyProof);
    }
    if root.len() == 0 {
        return Err(ClientError::EmptyRoot);
    }
    if proof_count != spec_count {
        return Err(ClientError::ProofCountMismatch);
    }
    if path_len != spec_count {
        return Err(ClientError::PathLengthMismatch);
    }
    Ok(())
}

/// The height to read the state at: the one below the latest trusted
/// block, whose header holds the root of that state; 0, the chain's latest
/// state, when proofs are not checked.
pub fn request_height(latest_trusted: u64, verify: bool) -> (h: u64)
    requires
        latest_trusted >= 1,
    ensures
        verify ==> h == latest_trusted - 1,
        !verify ==> h == 0,
{
    if verify {
        latest_trusted - 1
    } else {
        0
    }
}

/// The keys of the posts with the given ids.
pub fn post_keys_for(ids: &Vec<String>) -> (keys: Vec<String>)
    ensures
        keys@.len() == ids@.len(),
        forall|i: int|
            0 <= i < ids@.len() ==> (#[trigger] keys@[i])@ == crate::client::keys::joined_key(
                "p-"@,
                ids@[i]@,
                None,
            ),
{
    let mut keys: Vec<String> = Vec::new();
    let mut i: usize = 0;
    while i < ids.len()
        invariant
            i <= ids@.len(),
            keys@.len() == i,
            forall|k: int|
                0 <= k < i ==> (#[trigger] keys@[k])@ == crate::client::keys::joined_key(
                    "p-"@,
                    ids@[k]@,
                    None,
                ),
        decreases ids@.len() - i,
    {
        keys.push(crate::client::keys::post_key(ids[i].clone()));
        i = i + 1;
    }
    keys
}

/// The views of stored values.
pub open spec fn values_view(v: Seq<Option<Vec<u8>>>) -> Seq<Option<Seq<u8>>> {
    v.map_values(|x: Option<Vec<u8>>| match x {
        None => None,
        Some(b) => Some(b@),
    })
}

/// The post ids stored under a page's keys, in order: each value must be
/// there (else `MissingData`) and be text (else `InvalidUtf8`); the first
/// value that is not gives the error.
pub open spec fn stored_ids(vals: Seq<Option<Seq<u8>>>) -> Result<Seq<Seq<char>>, ClientError>
    decreases vals.len(),
{
    if vals.len() == 0 {
        Ok(Seq::empty())
    } else {
        match stored_ids(vals.drop_last()) {
            Err(e) => Err(e),
            Ok(ids) => match vals.last() {
                None => Err(ClientError::MissingData),
                Some(b) => if vstd::utf8::valid_utf8(b) {
                    Ok(ids.push(vstd::utf8::decode_utf8(b)))
                } else {
                    Err(ClientError::InvalidUtf8)
                },
            },
        }
    }
}

/// The post ids stored under a page's keys; see [`stored_ids`].
pub fn post_ids(values: &Vec<Option<Vec<u8>>>) -> (r: Result<Vec<String>, ClientError>)
    ensures
        match stored_ids(values_view(values@)) {
            Err(e) => r == Err::<Vec<String>, ClientError>(e),
            Ok(ids) => r matches Ok(v) && v@.map_values(|x: String| x@) == ids,
        },
{
    let ghost vs = values_view(values@);
    let mut ids: Vec<String> = Vec::new();
    let mut i: usize = 0;
    assert(vs.take(0) =~= Seq::<Option<Seq<u8>>>::empty());
    while i < values.len()
        invariant
            i <= values@.len(),
            vs == values_view(values@),
            stored_ids(vs.take(i as int)) matches Ok(sofar) && ids@.map_values(|x: String| x@)
                == sofar,
        decreases values@.len() - i,
    {
        assert(vs.take(i + 1).drop_last() =~= vs.take(i as int));
        let ghost sofar = ids@.map_values(|x: String| x@);
        match &values[i] {
            None => {
                proof {
                    lemma_stored_ids_stops(vs, i as int);
                }
                return Err(ClientError::MissingData);
            },
            Some(b) => {
                match string_from_utf8(crate::codec::copy_bytes(b.as_slice())) {
                    None => {
                        proof {
                            lemma_stored_ids_stops(vs, i as int);
                        }
                        return Err(ClientError::InvalidUtf8);
                    },
                    Some(t) => {
                        ids.push(t);
                        assert(ids@.map_values(|x: String| x@) =~= sofar.push(
                            vstd::utf8::decode_utf8(b@),
                        ));
                    },
                }
            },
        }
        i = i + 1;
    }
    assert(vs.take(i as int) =~= vs);
    Ok(ids)
}

/// Once a value is missing or not text, reading all of them fails with
/// that value's error.
proof fn lemma_stored_ids_stops(vs: Seq<Option<Seq<u8>>>, i: int)
    requires
        0 <= i < vs.len(),
        stored_ids(vs.take(i)) is Ok,
        stored_ids(vs.take(i + 1)) is Err,
    ensures
        stored_ids(vs) == stored_ids(vs.take(i + 1)),
    decreases vs.len() - i,
{
    if i + 1 == vs.len() {
        assert(vs.take(i + 1) =~= vs);
    } else {
        assert(vs.take(i + 2).drop_last() =~= vs.take(i + 1));
        lemma_stored_ids_stops_from(vs, i + 2);
    }
}

proof fn lemma_stored_ids_stops_from(vs: Seq<Option<Seq<u8>>>, j: int)
    requires
        1 <= j <= vs.len(),
        stored_ids(vs.take(j)) is Err,
    ensures
        stored_ids(vs) == stored_ids(vs.take(j)),
    decreases vs.len() - j,
{
    if j == vs.len() {
        assert(vs.take(j) =~= vs);
    } else {
        assert(vs.take(j + 1).drop_last() =~= vs.take(j));
        lemma_stored_ids_stops_from(vs, j + 1);
    }
}

/// The values that are there, in order.
pub open spec fn somes<T>(v: Seq<Option<T>>) -> Seq<T>
    decreases v.len(),
{
    if v.len() == 0 {
        Seq::empty()
    } else {
        match v.last() {
            None => somes(v.drop_last()),
            Some(x) => somes(v.drop_last()).push(x),
        }
    }
}

/// The values that are there, in order: the posts read, without those
/// that are not stored.
pub fn present_only<T>(values: Vec<Option<T>>) -> (r: Vec<T>)
    ensures
        r@ == somes(values@),
{
    let ghost all = values@;
    let mut values = values;
    let mut out: Vec<T> = Vec::new();
    let n: usize = values.len();
    let mut i: usize = 0;
    assert(all.take(0) =~= Seq::<Option<T>>::empty());
    assert(all.skip(0) =~= all);
    while values.len() > 0
        invariant
            i <= all.len() == n,
            values@ == all.skip(i as int),
            out@ == somes(all.take(i as int)),
        decreases values@.len(),
    {
        assert(i < all.len());
        assert(all.take(i + 1).drop_last() =~= all.take(i as int));
        let x = values.remove(0);
        assert(all.skip(i as int).remove(0) =~= all.skip(i + 1));
        match x {
            None => {},
            Some(t) => {
                out.push(t);
            },
        }
        i = i + 1;
    }
    assert(all.take(i as int) =~= all);
    out
}

} // verus!
