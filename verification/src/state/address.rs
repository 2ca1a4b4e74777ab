//! Account addresses and the seeds from which program-owned addresses are
//! derived: the SHA-256 digest of a short text naming the account.
use crate::codec::utf8;
use crate::text::{decimal, push_decimal};
use vstd::prelude::*;

verus! {

/// A 32-byte account address.
#[derive(Clone, Copy, Debug)]
pub struct Pubkey(pub [u8; 32]);

impl View for Pubkey {
    type V = Seq<u8>;

    open spec fn view(&self) -> Seq<u8> {
        self.0@
    }
}

/// The big-endian number that an address's bytes spell; addresses are
/// ordered by it, which is the byte-wise lexicographic order.
pub open spec fn key_num(s: Seq<u8>) -> nat
    decreases s.len(),
{
    if s.len() == 0 {
        0
    } else {
        s[0] as nat * crate::codec::pow256((s.len() - 1) as nat) + key_num(s.drop_first())
    }
}

pub proof fn lemma_key_num_bound(s: Seq<u8>)
    ensures
        key_num(s) < crate::codec::pow256(s.len()),
    decreases s.len(),
{
    if s.len() > 0 {
        let p = crate::codec::pow256((s.len() - 1) as nat);
        lemma_key_num_bound(s.drop_first());
        let a = s[0] as nat;
        let r = key_num(s.drop_first());
        assert(a * p + r < 256 * p) by (nonlinear_arith)
            requires
                a <= 255,
                r < p,
        ;
    }
}

/// Two keys of one length whose first bytes differ are ordered by them.
proof fn lemma_key_num_first(a: Seq<u8>, b: Seq<u8>)
    requires
        a.len() == b.len(),
        a.len() > 0,
        a[0] < b[0],
    ensures
        key_num(a) < key_num(b),
{
    let p = crate::codec::pow256((a.len() - 1) as nat);
    lemma_key_num_bound(a.drop_first());
    let x = a[0] as nat;
    let y = b[0] as nat;
    let ra = key_num(a.drop_first());
    let rb = key_num(b.drop_first());
    assert(x * p + ra < y * p + rb) by (nonlinear_arith)
        requires
            x < y,
            ra < p,
            rb >= 0,
    ;
}

/// Keys of one length are equal exactly when their numbers are.
pub proof fn lemma_key_num_injective(a: Seq<u8>, b: Seq<u8>)
    requires
        a.len() == b.len(),
        key_num(a) == key_num(b),
    ensures
        a == b,
    decreases a.len(),
{
    if a.len() > 0 {
        if a[0] < b[0] {
            lemma_key_num_first(a, b);
        } else if b[0] < a[0] {
            lemma_key_num_first(b, a);
        } else {
            lemma_key_num_injective(a.drop_first(), b.drop_first());
            assert(a =~= seq![a[0]] + a.drop_first());
            assert(b =~= seq![b[0]] + b.drop_first());
        }
    } else {
        assert(a =~= b);
    }
}

/// How two addresses compare.
#[derive(PartialEq, Eq, Structural, Clone, Copy, Debug)]
pub enum KeyOrder {
    Less,
    Equal,
    Greater,
}

impl Pubkey {
    /// Compares two addresses byte by byte.
    pub fn compare(&self, other: &Pubkey) -> (o: KeyOrder)
        ensures
            o == KeyOrder::Less <==> key_num(self@) < key_num(other@),
            o == KeyOrder::Equal <==> self@ == other@,
            o == KeyOrder::Greater <==> key_num(self@) > key_num(other@),
    {
        let mut i: usize = 0;
        assert(self@.skip(0) =~= self@);
        assert(other@.skip(0) =~= other@);
        while i < 32
            invariant
                i <= 32,
                self@.len() == 32,
                other@.len() == 32,
                self@.take(i as int) == other@.take(i as int),
                (key_num(self@) < key_num(other@)) == (key_num(self@.skip(i as int)) < key_num(
                    other@.skip(i as int),
                )),
                (key_num(self@) == key_num(other@)) == (key_num(self@.skip(i as int)) == key_num(
                    other@.skip(i as int),
                )),
            decreases 32 - i,
        {
            let x = self.0[i];
            let y = other.0[i];
            let ghost sa = self@.skip(i as int);
            let ghost sb = other@.skip(i as int);
            assert(sa[0] == x && sb[0] == y);
            if x != y {
                proof {
                    if x < y {
                        lemma_key_num_first(sa, sb);
                    } else {
                        lemma_key_num_first(sb, sa);
                    }
                    if self@ == other@ {
                        assert(self@[i as int] == other@[i as int]);
                    }
                }
                if x < y {
                    return KeyOrder::Less;
                } else {
                    return KeyOrder::Greater;
                }
            }
            proof {
                assert(sa.drop_first() =~= self@.skip(i + 1));
                assert(sb.drop_first() =~= other@.skip(i + 1));
                assert(self@.take(i + 1) =~= self@.take(i as int).push(x));
                assert(other@.take(i + 1) =~= other@.take(i as int).push(y));
            }
            i = i + 1;
        }
        proof {
            assert(self@.take(32) =~= self@);
            assert(other@.take(32) =~= other@);
            assert(self@.skip(32) =~= Seq::<u8>::empty());
            assert(other@.skip(32) =~= Seq::<u8>::empty());
        }
        KeyOrder::Equal
    }

    /// Whether two addresses are the same.
    pub fn same(&self, other: &Pubkey) -> (b: bool)
        ensures
            b == (self@ == other@),
    {
        self.compare(other) == KeyOrder::Equal
    }
}

/// The SHA-256 digest of some bytes.
pub uninterp spec fn sha256_digest(data: Seq<u8>) -> Seq<u8>;

/// `solana_program::hash::hash`: the SHA-256 digest of `data`, which is 32
/// bytes long.  What the digest is, is named and not stated.
#[verifier::external_body]
pub(crate) fn sha256(data: &[u8]) -> (h: Vec<u8>)
    ensures
        h@ == sha256_digest(data@),
        h@.len() == 32,
{
    solana_program::hash::hash(data).to_bytes().to_vec()
}

/// The base58 text of an address, in the Bitcoin alphabet.
pub uninterp spec fn base58(bytes: Seq<u8>) -> Seq<char>;

/// `Display` of `solana_program::pubkey::Pubkey`: the address in base58.
/// What the text is, is named and not stated.
#[verifier::external_body]
pub(crate) fn pubkey_base58(key: &Pubkey) -> (s: String)
    ensures
        s@ == base58(key@),
{
    solana_program::pubkey::Pubkey::new_from_array(key.0).to_string()
}

/// The seed of an account named by a text: the digest of the text's UTF-8 bytes.
pub open spec fn text_seed(text: Seq<char>) -> Seq<u8> {
    sha256_digest(utf8(text))
}

/// The digest of a string's bytes.
pub fn hash_text(s: &String) -> (h: Vec<u8>)
    ensures
        h@ == text_seed(s@),
{
    sha256(s.as_str().as_bytes())
}

/// The seed of the text `prefix` followed by an address in base58.
pub fn address_seed(prefix: &str, address: &Pubkey) -> (h: Vec<u8>)
    ensures
        h@ == text_seed(prefix@ + base58(address@)),
{
    let mut s = String::from_str(prefix);
    let b = pubkey_base58(address);
    s.append(b.as_str());
    hash_text(&s)
}

/// The seed of the text `prefix` followed by a number in decimal.
pub fn number_seed(prefix: &str, n: u128) -> (h: Vec<u8>)
    ensures
        h@ == text_seed(prefix@ + decimal(n as nat)),
{
    let mut s = String::from_str(prefix);
    push_decimal(&mut s, n);
    hash_text(&s)
}

} // verus!
