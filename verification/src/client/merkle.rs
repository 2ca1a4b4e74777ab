//! Checking that a value is stored under a key in the chain's state: a
//! proof that the module's store holds the value, then a proof that the
//! chain's state holds the module's store, the last root being the one the
//! light client trusts.
use crate::client::error::ClientError;
use crate::client::keys::get_default_path;
use crate::client::verification::validate_membership_args;
use crate::codec::utf8;
use ics23::batch_entry::Proof as EntryProof;
use ics23::commitment_proof::Proof as TopProof;
use prost::Message;
use vstd::prelude::*;

verus! {

/// Which proof spec a step of the path is checked against.
#[derive(PartialEq, Eq, Structural, Clone, Copy, Debug)]
pub enum SpecKind {
    /// The module's store, an IAVL tree.
    Iavl,
    /// The chain's state, a Tendermint Merkle tree of the stores.
    Tendermint,
}

/// The specs of the two steps, module's store first.
pub fn get_cosmos_specs() -> (v: Vec<SpecKind>)
    ensures
        v@ == seq![SpecKind::Iavl, SpecKind::Tendermint],
{
    vec![SpecKind::Iavl, SpecKind::Tendermint]
}

/// What the protobuf message `proof` holds, as far as finding an existence
/// proof needs it: nothing when it does not decode as an ics23
/// `CommitmentProof`; else whether it is a single existence proof, and the
/// keys of its existence proofs (one for a single proof; for a batch, one
/// entry per batch entry, empty for an entry that is not an existence proof;
/// none for any other kind of proof).
pub uninterp spec fn proof_keys(proof: Seq<u8>) -> Option<(bool, Seq<Option<Seq<u8>>>)>;

/// The root that `ics23::calculate_existence_root` computes from the
/// existence proof at `entry` of the protobuf message `proof` (the proof
/// itself when it is a single existence proof); nothing when the message
/// does not decode, holds no existence proof there, or the root cannot be
/// computed.
pub uninterp spec fn existence_root(proof: Seq<u8>, entry: nat) -> Option<Seq<u8>>;

/// What `ics23::verify_membership` answers for the protobuf message `proof`
/// against `ics23::iavl_spec()`; false when the message does not decode.
pub uninterp spec fn ics23_member_iavl(
    proof: Seq<u8>,
    root: Seq<u8>,
    key: Seq<u8>,
    value: Seq<u8>,
) -> bool;

/// What `ics23::verify_membership` answers for the protobuf message `proof`
/// against `ics23::tendermint_spec()`; false when the message does not
/// decode.
pub uninterp spec fn ics23_member_tendermint(
    proof: Seq<u8>,
    root: Seq<u8>,
    key: Seq<u8>,
    value: Seq<u8>,
) -> bool;

/// The views of a list of optional keys.
pub open spec fn keys_view(v: Seq<Option<Vec<u8>>>) -> Seq<Option<Seq<u8>>> {
    v.map_values(|o: Option<Vec<u8>>| opt_bytes(o))
}

/// The optional bytes of an optional vector.
pub open spec fn opt_bytes(o: Option<Vec<u8>>) -> Option<Seq<u8>> {
    match o {
        None => None,
        Some(v) => Some(v@),
    }
}

/// `prost::Message::decode` of an ics23 `CommitmentProof`, read down to the
/// variants and keys of its existence proofs: the contract names the result
/// (see [`proof_keys`]); prost's decoding is not restated.
#[verifier::external_body]
fn decode_proof_keys(proof: &[u8]) -> (r: Option<(bool, Vec<Option<Vec<u8>>>)>)
    ensures
        match proof_keys(proof@) {
            None => r is None,
            Some((single, keys)) => r matches Some((s, v)) && s == single && keys_view(v@) == keys,
        },
{
    let p = ics23::CommitmentProof::decode(proof).ok()?;
    Some(match p.proof {
        Some(TopProof::Exist(e)) => (true, vec![Some(e.key)]),
        Some(TopProof::Batch(b)) => (false, b.entries.into_iter().map(|x| match x.proof {
            Some(EntryProof::Exist(e)) => Some(e.key),
            _ => None,
        }).collect()),
        _ => (false, Vec::new()),
    })
}

/// `ics23::calculate_existence_root` of the existence proof at `entry` of
/// the decoded message: the contract names the result (see
/// [`existence_root`]).
#[verifier::external_body]
fn calculate_root(proof: &[u8], entry: usize) -> (r: Option<Vec<u8>>)
    ensures
        opt_bytes(r) == existence_root(proof@, entry as nat),
{
    let ex = match ics23::CommitmentProof::decode(proof).ok()?.proof {
        Some(TopProof::Exist(e)) => Some(e),
        Some(TopProof::Batch(b)) => match b.entries.into_iter().nth(entry)?.proof {
            Some(EntryProof::Exist(e)) => Some(e),
            _ => None,
        },
        _ => None,
    }?;
    ics23::calculate_existence_root(&ex).ok()
}

/// `ics23::verify_membership` of the decoded message against
/// `ics23::iavl_spec()`: the contract names the answer (see
/// [`ics23_member_iavl`]).
#[verifier::external_body]
fn verify_iavl(proof: &[u8], root: &[u8], key: &[u8], value: &[u8]) -> (b: bool)
    ensures
        b == ics23_member_iavl(proof@, root@, key@, value@),
{
    match ics23::CommitmentProof::decode(proof) {
        Err(_) => false,
        Ok(p) => ics23::verify_membership(&p, &ics23::iavl_spec(), &root.to_vec(), key, value),
    }
}

/// `ics23::verify_membership` of the decoded message against
/// `ics23::tendermint_spec()`: the contract names the answer (see
/// [`ics23_member_tendermint`]).
#[verifier::external_body]
fn verify_tendermint(proof: &[u8], root: &[u8], key: &[u8], value: &[u8]) -> (b: bool)
    ensures
        b == ics23_member_tendermint(proof@, root@, key@, value@),
{
    match ics23::CommitmentProof::decode(proof) {
        Err(_) => false,
        Ok(p) => ics23::verify_membership(
            &p,
            &ics23::tendermint_spec(),
            &root.to_vec(),
            key,
            value,
        ),
    }
}

/// The upper-case hexadecimal digit of `n` (below 16).
pub open spec fn hex_digit(n: u8) -> char {
    if n < 10 {
        ('0' as u32 + n) as char
    } else {
        ('A' as u32 + n - 10) as char
    }
}

/// Bytes in upper-case hexadecimal: two digits a byte, the high half
/// first.
pub open spec fn hex_upper_spec(b: Seq<u8>) -> Seq<char>
    decreases b.len(),
{
    if b.len() == 0 {
        Seq::empty()
    } else {
        hex_upper_spec(b.drop_last()) + seq![hex_digit(b.last() / 16), hex_digit(b.last() % 16)]
    }
}

/// `hex::encode_upper`: its source writes each byte as two digits of
/// `0123456789ABCDEF`, the high half first; the contract states that.
#[verifier::external_body]
fn hex_upper(bytes: &[u8]) -> (s: String)
    ensures
        s@ == hex_upper_spec(bytes@),
{
    hex::encode_upper(bytes)
}

proof fn lemma_hex_len(b: Seq<u8>)
    ensures
        hex_upper_spec(b).len() == 2 * b.len(),
    decreases b.len(),
{
    if b.len() > 0 {
        lemma_hex_len(b.drop_last());
    }
}

/// Different bytes give different hexadecimal text.
pub proof fn lemma_hex_injective(a: Seq<u8>, b: Seq<u8>)
    requires
        hex_upper_spec(a) == hex_upper_spec(b),
    ensures
        a == b,
    decreases a.len(),
{
    lemma_hex_len(a);
    lemma_hex_len(b);
    if a.len() > 0 {
        let ha = hex_upper_spec(a);
        let n = ha.len();
        let x = a.last();
        let y = b.last();
        assert(ha[n - 2] == hex_digit(x / 16) && ha[n - 1] == hex_digit(x % 16)) by {
            lemma_hex_len(a.drop_last());
        }
        assert(hex_upper_spec(b)[n - 2] == hex_digit(y / 16) && hex_upper_spec(b)[n - 1]
            == hex_digit(y % 16)) by {
            lemma_hex_len(b.drop_last());
        }
        assert(x / 16 == y / 16 && x % 16 == y % 16);
        assert(x == y);
        assert(hex_upper_spec(a.drop_last()) =~= ha.take(n - 2)) by {
            lemma_hex_len(a.drop_last());
        }
        assert(hex_upper_spec(b.drop_last()) =~= hex_upper_spec(b).take(n - 2)) by {
            lemma_hex_len(b.drop_last());
        }
        lemma_hex_injective(a.drop_last(), b.drop_last());
        assert(a =~= a.drop_last().push(x));
        assert(b =~= b.drop_last().push(y));
    }
}

/// The index of the first key equal to `key`.
pub open spec fn first_match(keys: Seq<Option<Seq<u8>>>, key: Seq<u8>) -> Option<nat>
    decreases keys.len(),
{
    if keys.len() == 0 {
        None
    } else if keys[0] == Some(key) {
        Some(0)
    } else {
        match first_match(keys.drop_first(), key) {
            None => None,
            Some(j) => Some(j + 1),
        }
    }
}

/// Where the existence proof for `key` is: a single existence proof is
/// taken whatever its key; in a batch, the first existence proof for `key`.
pub open spec fn exist_entry(shape: (bool, Seq<Option<Seq<u8>>>), key: Seq<u8>) -> Option<nat> {
    if shape.0 {
        Some(0)
    } else {
        first_match(shape.1, key)
    }
}

/// Whether step `i` of the path accepts: step 0 against the IAVL spec,
/// later steps against the Tendermint spec.
pub open spec fn step_accepts(proof: Seq<u8>, i: nat, root: Seq<u8>, key: Seq<u8>, value: Seq<u8>) -> bool {
    if i == 0 {
        ics23_member_iavl(proof, root, key, value)
    } else {
        ics23_member_tendermint(proof, root, key, value)
    }
}

/// The root that the proofs from the `i`-th on lead `value` to, along the
/// path of keys: at each step the root computed from the existence proof
/// for the step's key, which the step's proof must accept for the key and
/// the value so far, becomes the next value.
pub open spec fn chain_root(
    proofs: Seq<Seq<u8>>,
    path: Seq<Seq<u8>>,
    i: nat,
    value: Seq<u8>,
) -> Result<Seq<u8>, ClientError>
    decreases proofs.len() - i,
{
    if i >= proofs.len() {
        Ok(value)
    } else {
        match proof_keys(proofs[i as int]) {
            None => Err(ClientError::NoExistenceProof),
            Some(shape) => match exist_entry(shape, path[i as int]) {
                None => Err(ClientError::NoExistenceProof),
                Some(j) => match existence_root(proofs[i as int], j) {
                    None => Err(ClientError::RootNotComputed),
                    Some(sub) => if !step_accepts(proofs[i as int], i, sub, path[i as int], value) {
                        Err(ClientError::ProofRejected)
                    } else {
                        chain_root(proofs, path, i + 1, sub)
                    },
                },
            },
        }
    }
}

/// Whether every proof decodes.
pub open spec fn all_decode(proofs: Seq<Seq<u8>>) -> bool {
    forall|i: int| 0 <= i < proofs.len() ==> (#[trigger] proof_keys(proofs[i])) is Some
}

/// The path of a key: the key, then the store's name.
pub open spec fn key_path(key: Seq<u8>) -> Seq<Seq<u8>> {
    seq![key, utf8("blawgd"@)]
}

/// The checks before the proofs are followed: every proof decodes, then
/// the arguments are well formed (two proofs, a root).
pub open spec fn args_result(proofs: Seq<Seq<u8>>, root: Seq<u8>) -> Result<(), ClientError> {
    if !all_decode(proofs) {
        Err(ClientError::ProofUndecodable)
    } else if proofs.len() == 0 {
        Err(ClientError::EmptyProof)
    } else if root.len() == 0 {
        Err(ClientError::EmptyRoot)
    } else if proofs.len() != 2 {
        Err(ClientError::ProofCountMismatch)
    } else {
        Ok(())
    }
}

/// Whether the proofs show `value` under `key` in the state of root
/// `root`: the checks, a value, and a chain of proofs whose last root,
/// written in hexadecimal, is the given root's.
pub open spec fn membership_result(
    proofs: Seq<Seq<u8>>,
    root: Seq<u8>,
    key: Seq<u8>,
    value: Seq<u8>,
) -> Result<(), ClientError> {
    match args_result(proofs, root) {
        Err(e) => Err(e),
        Ok(_) => if value.len() == 0 {
            Err(ClientError::EmptyValue)
        } else {
            match chain_root(proofs, key_path(key), 0, value) {
                Err(e) => Err(e),
                Ok(r) => if hex_upper_spec(root) == hex_upper_spec(r) {
                    Ok(())
                } else {
                    Err(ClientError::RootMismatch)
                },
            }
        },
    }
}

/// The proofs views.
pub open spec fn proofs_view(v: Seq<Vec<u8>>) -> Seq<Seq<u8>> {
    v.map_values(|p: Vec<u8>| p@)
}

/// Whether a commitment proof decodes.
pub(crate) fn decodes(proof: &[u8]) -> (b: bool)
    ensures
        b == proof_keys(proof@) is Some,
{
    decode_proof_keys(proof).is_some()
}

fn check_decode(proofs: &Vec<Vec<u8>>) -> (ok: bool)
    ensures
        ok == all_decode(proofs_view(proofs@)),
{
    let ghost ps = proofs_view(proofs@);
    let mut i: usize = 0;
    while i < proofs.len()
        invariant
            i <= proofs@.len(),
            ps == proofs_view(proofs@),
            forall|k: int| 0 <= k < i ==> (#[trigger] proof_keys(ps[k])) is Some,
        decreases proofs@.len() - i,
    {
        assert(ps[i as int] == proofs@[i as int]@);
        if decode_proof_keys(proofs[i].as_slice()).is_none() {
            return false;
        }
        i = i + 1;
    }
    true
}

fn check_args(proofs: &Vec<Vec<u8>>, root: &[u8], key: &[u8]) -> (r: Result<(), ClientError>)
    ensures
        match args_result(proofs_view(proofs@), root@) {
            Ok(_) => r is Ok,
            Err(e) => r == Err::<(), ClientError>(e),
        },
{
    if !check_decode(proofs) {
        return Err(ClientError::ProofUndecodable);
    }
    let specs = get_cosmos_specs();
    let path = get_default_path(key);
    assert(specs@.len() == 2);
    assert(proofs_view(proofs@).len() == proofs@.len());
    validate_membership_args(specs.len(), proofs.len(), root, path.len())
}

/// The entry of the existence proof for `key`; see [`exist_entry`].
fn find_entry(single: bool, keys: &Vec<Option<Vec<u8>>>, key: &[u8]) -> (r: Option<usize>)
    ensures
        match exist_entry((single, keys_view(keys@)), key@) {
            None => r is None,
            Some(j) => r matches Some(x) && x as nat == j,
        },
{
    if single {
        return Some(0);
    }
    let ghost ks = keys_view(keys@);
    let mut i: usize = 0;
    assert(ks.skip(0) =~= ks);
    while i < keys.len()
        invariant
            !single,
            i <= keys@.len(),
            ks == keys_view(keys@),
            first_match(ks, key@) == match first_match(ks.skip(i as int), key@) {
                None => None,
                Some(j) => Some((j + i) as nat),
            },
        decreases keys@.len() - i,
    {
        assert(ks.skip(i as int)[0] == ks[i as int]);
        match &keys[i] {
            Some(k) => {
                if bytes_equal(k.as_slice(), key) {
                    assert(ks[i as int] == Some(key@));
                    assert(first_match(ks.skip(i as int), key@) == Some(0nat));
                    return Some(i);
                }
            },
            None => {},
        }
        assert(ks.skip(i as int).drop_first() =~= ks.skip(i + 1));
        i = i + 1;
    }
    None
}

/// Whether two byte strings are equal.
fn bytes_equal(a: &[u8], b: &[u8]) -> (r: bool)
    ensures
        r == (a@ == b@),
{
    if a.len() != b.len() {
        return false;
    }
    let mut i: usize = 0;
    while i < a.len()
        invariant
            i <= a@.len(),
            a@.len() == b@.len(),
            forall|k: int| 0 <= k < i ==> a@[k] == b@[k],
        decreases a@.len() - i,
    {
        if a[i] != b[i] {
            return false;
        }
        i = i + 1;
    }
    assert(a@ =~= b@);
    true
}

/// Checks that `value` is stored under `key` in the state of root `root`;
/// see [`membership_result`].
pub fn verify_membership(proofs: &Vec<Vec<u8>>, root: &[u8], key: &[u8], value: &[u8]) -> (r:
    Result<(), ClientError>)
    ensures
        match membership_result(proofs_view(proofs@), root@, key@, value@) {
            Ok(_) => r is Ok,
            Err(e) => r == Err::<(), ClientError>(e),
        },
{
    let ghost ps = proofs_view(proofs@);
    check_args(proofs, root, key)?;
    if value.len() == 0 {
        return Err(ClientError::EmptyValue);
    }
    let path = get_default_path(key);
    let ghost kp = key_path(key@);
    assert(path@.map_values(|s: &[u8]| s@) =~= kp);
    let mut current: Vec<u8> = crate::codec::copy_bytes(value);
    let mut i: usize = 0;
    while i < proofs.len()
        invariant
            proofs@.len() == 2,
            i <= 2,
            ps == proofs_view(proofs@),
            path@.len() == 2,
            kp == key_path(key@),
            args_result(ps, root@) is Ok,
            value@.len() > 0,
            kp.len() == 2,
            path@[0]@ == kp[0],
            path@[1]@ == kp[1],
            chain_root(ps, kp, 0, value@) == chain_root(ps, kp, i as nat, current@),
        decreases 2 - i,
    {
        assert(ps[i as int] == proofs@[i as int]@);
        let step_key: &[u8] = path[i];
        assert(step_key@ == kp[i as int]) by {
            if i == 0 {
            } else {
                assert(i == 1);
            }
        }
        let (single, keys) = match decode_proof_keys(proofs[i].as_slice()) {
            None => {
                return Err(ClientError::NoExistenceProof);
            },
            Some(x) => x,
        };
        let entry = match find_entry(single, &keys, step_key) {
            None => {
                return Err(ClientError::NoExistenceProof);
            },
            Some(j) => j,
        };
        let sub = match calculate_root(proofs[i].as_slice(), entry) {
            None => {
                return Err(ClientError::RootNotComputed);
            },
            Some(s) => s,
        };
        let accepted = if i == 0 {
            verify_iavl(proofs[i].as_slice(), sub.as_slice(), step_key, current.as_slice())
        } else {
            verify_tendermint(proofs[i].as_slice(), sub.as_slice(), step_key, current.as_slice())
        };
        if !accepted {
            return Err(ClientError::ProofRejected);
        }
        current = sub;
        i = i + 1;
    }
    let given = hex_upper(root);
    let calculated = hex_upper(current.as_slice());
    if given != calculated {
        return Err(ClientError::RootMismatch);
    }
    Ok(())
}

/// Accepting a proof means that the chain of proofs leads `value`
/// to exactly the given root.
pub proof fn law_membership_reaches_root(
    proofs: Seq<Seq<u8>>,
    root: Seq<u8>,
    key: Seq<u8>,
    value: Seq<u8>,
)
    requires
        membership_result(proofs, root, key, value) is Ok,
    ensures
        chain_root(proofs, key_path(key), 0, value) == Ok::<Seq<u8>, ClientError>(root),
{
    let r = chain_root(proofs, key_path(key), 0, value)->Ok_0;
    lemma_hex_injective(root, r);
}

/// Checks the arguments of a proof that nothing is stored under `key`; the
/// proofs themselves are not followed.
pub fn verify_non_membership(proofs: &Vec<Vec<u8>>, root: &[u8], key: &[u8]) -> (r: Result<
    (),
    ClientError,
>)
    ensures
        match args_result(proofs_view(proofs@), root@) {
            Ok(_) => r is Ok,
            Err(e) => r == Err::<(), ClientError>(e),
        },
{
    check_args(proofs, root, key)
}

} // verus!
