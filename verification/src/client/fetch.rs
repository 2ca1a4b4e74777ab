//! Checking what the chain answers to a read before the client uses it:
//! each value asked for comes with a proof, which must show the value (or,
//! for an empty value, its absence) in the state the light client trusts.
use crate::client::error::ClientError;
use crate::client::merkle::{
    args_result, membership_result, proof_keys, proofs_view, verify_membership,
    verify_non_membership,
};
use crate::client::verification::{
    distinct_keys, entries_view, find_entry, lemma_distinct_keys, lemma_select_entries_shape,
    present, present_values, select_entries, select_prefetched, GetResponse,
};
use crate::codec::utf8;
use prost::Message;
use vstd::prelude::*;

verus! {

/// The `data` of each operation of the protobuf message `bytes` decoded as
/// a Tendermint `ProofOps`; nothing when it does not decode.
pub uninterp spec fn proof_ops(bytes: Seq<u8>) -> Option<Seq<Seq<u8>>>;

/// `prost::Message::decode` of a Tendermint `ProofOps`, read down to the
/// data of its operations: the contract names the result (see
/// [`proof_ops`]); prost's decoding is not restated.
#[verifier::external_body]
fn decode_proof_ops(bytes: &[u8]) -> (r: Option<Vec<Vec<u8>>>)
    ensures
        match proof_ops(bytes@) {
            None => r is None,
            Some(ops) => r matches Some(v) && proofs_view(v@) == ops,
        },
{
    let p = tendermint_proto::crypto::ProofOps::decode(bytes).ok()?;
    Some(p.ops.into_iter().map(|op| op.data).collect())
}

/// The commitment proofs in a Tendermint proof: the data of its
/// operations, each of which must decode as a commitment proof.
pub open spec fn ics_proofs(proof: Seq<u8>) -> Option<Seq<Seq<u8>>> {
    match proof_ops(proof) {
        None => None,
        Some(ops) => if forall|i: int| 0 <= i < ops.len() ==> (#[trigger] proof_keys(ops[i])) is Some {
            Some(ops)
        } else {
            None
        },
    }
}

/// The commitment proofs in a Tendermint proof; fails with
/// `ProofUndecodable` when the proof or one of its operations does not
/// decode. See [`ics_proofs`].
pub fn convert_tm_to_ics_merkle_proof(proof: &[u8]) -> (r: Result<Vec<Vec<u8>>, ClientError>)
    ensures
        match ics_proofs(proof@) {
            None => r == Err::<Vec<Vec<u8>>, ClientError>(ClientError::ProofUndecodable),
            Some(ops) => r matches Ok(v) && proofs_view(v@) == ops,
        },
{
    let ops = match decode_proof_ops(proof) {
        None => {
            return Err(ClientError::ProofUndecodable);
        },
        Some(ops) => ops,
    };
    let ghost v = proofs_view(ops@);
    let mut i: usize = 0;
    while i < ops.len()
        invariant
            i <= ops@.len(),
            v == proofs_view(ops@),
            proof_ops(proof@) == Some(v),
            forall|k: int| 0 <= k < i ==> (#[trigger] proof_keys(v[k])) is Some,
        decreases ops@.len() - i,
    {
        assert(v[i as int] == ops@[i as int]@);
        if !crate::client::merkle::decodes(ops[i].as_slice()) {
            assert(proof_keys(v[i as int]) is None);
            return Err(ClientError::ProofUndecodable);
        }
        i = i + 1;
    }
    Ok(ops)
}

/// What checking one key gives: its value and proof must be in the
/// answer; the proof must decode; an empty value must be shown absent (only
/// the form of the proof is checked), any other value present.
pub open spec fn key_check(
    data: Seq<(Seq<char>, Seq<u8>)>,
    proofs: Seq<(Seq<char>, Seq<u8>)>,
    root: Seq<u8>,
    key: Seq<char>,
) -> Result<(), ClientError> {
    match find_entry(data, key) {
        None => Err(ClientError::MissingData),
        Some(val) => match find_entry(proofs, key) {
            None => Err(ClientError::MissingProof),
            Some(proof) => match ics_proofs(proof) {
                None => Err(ClientError::ProofUndecodable),
                Some(ops) => if val.len() == 0 {
                    args_result(ops, root)
                } else {
                    membership_result(ops, root, utf8(key), val)
                },
            },
        },
    }
}

/// The first failing check among the keys, in order.
pub open spec fn keys_check(
    data: Seq<(Seq<char>, Seq<u8>)>,
    proofs: Seq<(Seq<char>, Seq<u8>)>,
    root: Seq<u8>,
    keys: Seq<Seq<char>>,
) -> Result<(), ClientError>
    decreases keys.len(),
{
    if keys.len() == 0 {
        Ok(())
    } else {
        match keys_check(data, proofs, root, keys.drop_last()) {
            Err(e) => Err(e),
            Ok(_) => key_check(data, proofs, root, keys.last()),
        }
    }
}

fn check_key(
    data: &Vec<(String, Vec<u8>)>,
    proofs: &Vec<(String, Vec<u8>)>,
    root: &[u8],
    key: &String,
) -> (r: Result<(), ClientError>)
    ensures
        match key_check(entries_view(data@), entries_view(proofs@), root@, key@) {
            Ok(_) => r is Ok,
            Err(e) => r == Err::<(), ClientError>(e),
        },
{
    let val = match crate::client::verification::find_bytes(data, key) {
        None => {
            return Err(ClientError::MissingData);
        },
        Some(v) => v,
    };
    let proof = match crate::client::verification::find_bytes(proofs, key) {
        None => {
            return Err(ClientError::MissingProof);
        },
        Some(p) => p,
    };
    let ops = convert_tm_to_ics_merkle_proof(proof.as_slice())?;
    if val.len() == 0 {
        verify_non_membership(&ops, root, key.as_str().as_bytes())
    } else {
        verify_membership(&ops, root, key.as_str().as_bytes(), val.as_slice())
    }
}

/// Whether no two entries share a key, as in a map.
pub open spec fn keys_unique(m: Seq<(Seq<char>, Seq<u8>)>) -> bool {
    forall|i: int, j: int| 0 <= i < j < m.len() ==> #[trigger] m[i].0 != #[trigger] m[j].0
}

/// Whether no two entries share a key.
fn unique_keys(data: &Vec<(String, Vec<u8>)>) -> (b: bool)
    ensures
        b == keys_unique(entries_view(data@)),
{
    let ghost d = entries_view(data@);
    let mut j: usize = 0;
    while j < data.len()
        invariant
            j <= data@.len(),
            d == entries_view(data@),
            forall|a: int, b: int| 0 <= a < b < j ==> #[trigger] d[a].0 != #[trigger] d[b].0,
        decreases data@.len() - j,
    {
        let mut i: usize = 0;
        while i < j
            invariant
                i <= j < data@.len(),
                d == entries_view(data@),
                forall|a: int, b: int| 0 <= a < b < j ==> #[trigger] d[a].0 != #[trigger] d[b].0,
                forall|a: int| 0 <= a < i ==> #[trigger] d[a].0 != d[j as int].0,
            decreases j - i,
        {
            if data[i].0 == data[j].0 {
                assert(d[i as int].0 == d[j as int].0);
                return false;
            }
            i = i + 1;
        }
        j = j + 1;
    }
    true
}

/// What a read answers, once checked: each entry's value, absent when
/// empty (see [`present`]). An answer with two entries under one key is
/// refused; then, when `verify` holds, each key's value is checked against
/// its proof and the root (see [`keys_check`]).
pub fn checked_values(
    keys: &Vec<String>,
    data: Vec<(String, Vec<u8>)>,
    proofs: &Vec<(String, Vec<u8>)>,
    root: &[u8],
    verify: bool,
) -> (r: Result<Vec<(String, Option<Vec<u8>>)>, ClientError>)
    ensures
        ({
            let check = if verify {
                keys_check(
                    entries_view(data@),
                    entries_view(proofs@),
                    root@,
                    keys@.map_values(|k: String| k@),
                )
            } else {
                Ok(())
            };
            if !keys_unique(entries_view(data@)) {
                r == Err::<Vec<(String, Option<Vec<u8>>)>, ClientError>(ClientError::DuplicateKey)
            } else {
                match check {
                Err(e) => r == Err::<Vec<(String, Option<Vec<u8>>)>, ClientError>(e),
                Ok(_) => r matches Ok(v) && v@.len() == data@.len() && forall|i: int|
                    0 <= i < v@.len() ==> (#[trigger] v@[i]).0@ == data@[i].0@ && match v@[i].1 {
                        None => present(data@[i].1@) is None,
                        Some(x) => present(data@[i].1@) == Some(x@),
                    },
                }
            }
        }),
{
    if !unique_keys(&data) {
        return Err(ClientError::DuplicateKey);
    }
    if verify {
        let ghost ks = keys@.map_values(|k: String| k@);
        let ghost d = entries_view(data@);
        let ghost p = entries_view(proofs@);
        let mut i: usize = 0;
        assert(ks.take(0) =~= Seq::<Seq<char>>::empty());
        while i < keys.len()
            invariant
                verify,
                i <= keys@.len(),
                ks == keys@.map_values(|k: String| k@),
                d == entries_view(data@),
                p == entries_view(proofs@),
                keys_check(d, p, root@, ks.take(i as int)) is Ok,
                keys_unique(d),
            decreases keys@.len() - i,
        {
            assert(ks.take(i + 1).drop_last() =~= ks.take(i as int));
            assert(ks.take(i + 1).last() == keys@[i as int]@);
            match check_key(&data, proofs, root, &keys[i]) {
                Err(e) => {
                    proof {
                        lemma_keys_check_stops(d, p, root@, ks, i as int);
                    }
                    return Err(e);
                },
                Ok(_) => {},
            }
            i = i + 1;
        }
        assert(ks.take(i as int) =~= ks);
    }
    Ok(present_values(data))
}

/// A read answered from data fetched ahead: the values and proofs of the
/// keys asked for, each key once (see [`select_entries`]), checked when
/// `verify` holds; each key's value is absent when empty.
pub fn prefetched_values(
    resp: &GetResponse,
    keys: &Vec<String>,
    root: &[u8],
    verify: bool,
) -> (r: Result<Vec<(String, Option<Vec<u8>>)>, ClientError>)
    ensures
        ({
            let ks = keys@.map_values(|k: String| k@);
            match (select_entries(resp@.data, ks), select_entries(resp@.proofs, ks)) {
                (Some(d), Some(p)) => {
                    let check = if verify {
                        keys_check(d, p, root@, ks)
                    } else {
                        Ok(())
                    };
                    match check {
                        Err(e) => r == Err::<Vec<(String, Option<Vec<u8>>)>, ClientError>(e),
                        Ok(_) => r matches Ok(v) && v@.len() == distinct_keys(ks).len() && forall|
                            i: int,
                        |
                            0 <= i < v@.len() ==> (#[trigger] v@[i]).0@ == distinct_keys(ks)[i]
                                && match v@[i].1 {
                                None => present(find_entry(resp@.data, v@[i].0@)->Some_0) is None,
                                Some(x) => present(find_entry(resp@.data, v@[i].0@)->Some_0)
                                    == Some(x@),
                            },
                    }
                },
                _ => r == Err::<Vec<(String, Option<Vec<u8>>)>, ClientError>(
                    ClientError::MissingPrefetchedKey,
                ),
            }
        }),
{
    let ghost ks = keys@.map_values(|k: String| k@);
    let (data, proofs) = select_prefetched(resp, keys)?;
    proof {
        lemma_select_entries_shape(resp@.data, ks);
        lemma_distinct_keys(ks);
        let d = entries_view(data@);
        assert forall|i: int, j: int| 0 <= i < j < d.len() implies #[trigger] d[i].0 != #[trigger] d[j].0 by {
            assert(d[i].0 == distinct_keys(ks)[i]);
            assert(d[j].0 == distinct_keys(ks)[j]);
        }
    }
    let ghost dv = entries_view(data@);
    let r = checked_values(keys, data, &proofs, root, verify);
    proof {
        if r is Ok {
            let v = r->Ok_0;
            assert forall|i: int| 0 <= i < v@.len() implies (#[trigger] v@[i]).0@ == distinct_keys(
                ks,
            )[i] && find_entry(resp@.data, v@[i].0@) == Some(dv[i].1) by {
                assert(dv[i].0 == distinct_keys(ks)[i]);
            }
        }
    }
    r
}

/// Once a key's check fails, the check of all the keys fails with its
/// error.
proof fn lemma_keys_check_stops(
    d: Seq<(Seq<char>, Seq<u8>)>,
    p: Seq<(Seq<char>, Seq<u8>)>,
    root: Seq<u8>,
    ks: Seq<Seq<char>>,
    i: int,
)
    requires
        0 <= i < ks.len(),
        keys_check(d, p, root, ks.take(i)) is Ok,
        key_check(d, p, root, ks[i]) is Err,
    ensures
        keys_check(d, p, root, ks) == key_check(d, p, root, ks[i]),
    decreases ks.len() - i,
{
    assert(ks.take(i + 1).drop_last() =~= ks.take(i));
    lemma_keys_check_grows(d, p, root, ks, i + 1);
}

proof fn lemma_keys_check_grows(
    d: Seq<(Seq<char>, Seq<u8>)>,
    p: Seq<(Seq<char>, Seq<u8>)>,
    root: Seq<u8>,
    ks: Seq<Seq<char>>,
    j: int,
)
    requires
        0 <= j <= ks.len(),
        keys_check(d, p, root, ks.take(j)) is Err,
    ensures
        keys_check(d, p, root, ks) == keys_check(d, p, root, ks.take(j)),
    decreases ks.len() - j,
{
    if j == ks.len() {
        assert(ks.take(j) =~= ks);
    } else {
        assert(ks.take(j + 1).drop_last() =~= ks.take(j));
        lemma_keys_check_grows(d, p, root, ks, j + 1);
    }
}

} // verus!
