//! The byte layout in which account state and instructions are stored:
//! little-endian fixed-width integers, one-byte booleans, length-prefixed
//! UTF-8 strings, tagged options and raw 32-byte keys.
//!
//! Every reader takes a buffer and a position and returns the value read and
//! the position after it; every writer appends to a byte vector.  Each reader
//! and writer is specified by a spec function over byte sequences, and the
//! lemmas at the end of the file show that reading what was written gives the
//! value back.
use vstd::prelude::*;
use vstd::utf8::*;

verus! {

broadcast use vstd::utf8::encode_utf8_valid_utf8, vstd::utf8::encode_utf8_decode_utf8;

/// `256^n`.
pub open spec fn pow256(n: nat) -> nat
    decreases n,
{
    if n == 0 {
        1
    } else {
        256 * pow256((n - 1) as nat)
    }
}

/// The `n` least significant bytes of `x`, least significant first.
pub open spec fn le_bytes(x: nat, n: nat) -> Seq<u8>
    decreases n,
{
    if n == 0 {
        seq![]
    } else {
        seq![(x % 256) as u8] + le_bytes(x / 256, (n - 1) as nat)
    }
}

/// The number whose little-endian bytes are `s`.
pub open spec fn le_value(s: Seq<u8>) -> nat
    decreases s.len(),
{
    if s.len() == 0 {
        0
    } else {
        s[0] as nat + 256 * le_value(s.drop_first())
    }
}

pub proof fn lemma_pow256_positive(n: nat)
    ensures
        pow256(n) >= 1,
    decreases n,
{
    if n > 0 {
        lemma_pow256_positive((n - 1) as nat);
    }
}

pub proof fn lemma_le_bytes_len(x: nat, n: nat)
    ensures
        le_bytes(x, n).len() == n,
    decreases n,
{
    if n > 0 {
        lemma_le_bytes_len(x / 256, (n - 1) as nat);
    }
}

/// Reading back `n` little-endian bytes gives the number, when it fits.
pub proof fn lemma_le_roundtrip(x: nat, n: nat)
    requires
        x < pow256(n),
    ensures
        le_value(le_bytes(x, n)) == x,
        le_bytes(x, n).len() == n,
    decreases n,
{
    lemma_le_bytes_len(x, n);
    if n > 0 {
        let rest = le_bytes(x / 256, (n - 1) as nat);
        assert(le_bytes(x, n).drop_first() =~= rest);
        assert(x / 256 < pow256((n - 1) as nat));
        lemma_le_roundtrip(x / 256, (n - 1) as nat);
    }
}

/// The value of `n` bytes is below `256^n`.
pub proof fn lemma_le_value_bound(s: Seq<u8>)
    ensures
        le_value(s) < pow256(s.len()),
    decreases s.len(),
{
    if s.len() > 0 {
        lemma_le_value_bound(s.drop_first());
    }
}

pub proof fn lemma_pow256_facts()
    ensures
        pow256(4) == 0x1_0000_0000,
        pow256(16) == 0x1_0000_0000_0000_0000_0000_0000_0000_0000,
{
    reveal_with_fuel(pow256, 17);
}

/// The layout of a `u128`: sixteen little-endian bytes.
pub open spec fn enc_u128(x: u128) -> Seq<u8> {
    le_bytes(x as nat, 16)
}

/// The layout of a `u32`: four little-endian bytes.
pub open spec fn enc_u32(x: u32) -> Seq<u8> {
    le_bytes(x as nat, 4)
}

/// The layout of a boolean: one byte, 1 for true and 0 for false.
pub open spec fn enc_bool(b: bool) -> Seq<u8> {
    seq![if b { 1u8 } else { 0u8 }]
}

/// The UTF-8 bytes of a string.
pub open spec fn utf8(s: Seq<char>) -> Seq<u8> {
    encode_utf8(s)
}

/// Whether a string's byte length fits the four-byte length prefix.
pub open spec fn str_fits(s: Seq<char>) -> bool {
    utf8(s).len() <= u32::MAX
}

/// The layout of a string: its byte length as a `u32`, then its UTF-8 bytes.
pub open spec fn enc_str(s: Seq<char>) -> Seq<u8> {
    le_bytes(utf8(s).len(), 4) + utf8(s)
}

/// The layout of a 32-byte key: the bytes themselves.
pub open spec fn enc_key(k: Seq<u8>) -> Seq<u8> {
    k
}

/// The layout of an optional key: tag 0, or tag 1 followed by the key.
pub open spec fn enc_opt_key(k: Option<Seq<u8>>) -> Seq<u8> {
    match k {
        None => seq![0u8],
        Some(k) => seq![1u8] + k,
    }
}

/// A `u128` read from the front of `s`, and what follows it.
pub open spec fn parse_u128(s: Seq<u8>) -> Option<(u128, Seq<u8>)> {
    if s.len() < 16 {
        None
    } else {
        Some((le_value(s.take(16)) as u128, s.skip(16)))
    }
}

/// A `u32` read from the front of `s`, and what follows it.
pub open spec fn parse_u32(s: Seq<u8>) -> Option<(u32, Seq<u8>)> {
    if s.len() < 4 {
        None
    } else {
        Some((le_value(s.take(4)) as u32, s.skip(4)))
    }
}

/// A byte read from the front of `s`, and what follows it.
pub open spec fn parse_u8(s: Seq<u8>) -> Option<(u8, Seq<u8>)> {
    if s.len() < 1 {
        None
    } else {
        Some((s[0], s.skip(1)))
    }
}

/// A boolean read from the front of `s`; any byte but 0 and 1 is refused.
pub open spec fn parse_bool(s: Seq<u8>) -> Option<(bool, Seq<u8>)> {
    if s.len() < 1 || s[0] > 1 {
        None
    } else {
        Some((s[0] == 1, s.skip(1)))
    }
}

/// A string read from the front of `s`: a length, that many bytes, which
/// must be valid UTF-8.
pub open spec fn parse_str(s: Seq<u8>) -> Option<(Seq<char>, Seq<u8>)> {
    match parse_u32(s) {
        None => None,
        Some((n, rest)) => if rest.len() < n || !valid_utf8(rest.take(n as int)) {
            None
        } else {
            Some((decode_utf8(rest.take(n as int)), rest.skip(n as int)))
        },
    }
}

/// A 32-byte key read from the front of `s`.
pub open spec fn parse_key(s: Seq<u8>) -> Option<(Seq<u8>, Seq<u8>)> {
    if s.len() < 32 {
        None
    } else {
        Some((s.take(32), s.skip(32)))
    }
}

/// An optional key read from the front of `s`; a tag other than 0 or 1 is refused.
pub open spec fn parse_opt_key(s: Seq<u8>) -> Option<(Option<Seq<u8>>, Seq<u8>)> {
    if s.len() < 1 || s[0] > 1 {
        None
    } else if s[0] == 0 {
        Some((None, s.skip(1)))
    } else {
        match parse_key(s.skip(1)) {
            None => None,
            Some((k, rest)) => Some((Some(k), rest)),
        }
    }
}

// ---------------------------------------------------------------------------
// Round trips of the primitive layouts.
pub proof fn lemma_u128_roundtrip(x: u128, rest: Seq<u8>)
    ensures
        parse_u128(enc_u128(x) + rest) == Some((x, rest)),
        enc_u128(x).len() == 16,
{
    lemma_pow256_facts();
    lemma_le_roundtrip(x as nat, 16);
    let s = enc_u128(x) + rest;
    assert(s.take(16) =~= enc_u128(x));
    assert(s.skip(16) =~= rest);
}

pub proof fn lemma_u32_roundtrip(x: u32, rest: Seq<u8>)
    ensures
        parse_u32(enc_u32(x) + rest) == Some((x, rest)),
        enc_u32(x).len() == 4,
{
    lemma_pow256_facts();
    lemma_le_roundtrip(x as nat, 4);
    let s = enc_u32(x) + rest;
    assert(s.take(4) =~= enc_u32(x));
    assert(s.skip(4) =~= rest);
}

pub proof fn lemma_bool_roundtrip(b: bool, rest: Seq<u8>)
    ensures
        parse_bool(enc_bool(b) + rest) == Some((b, rest)),
{
    assert((enc_bool(b) + rest).skip(1) =~= rest);
}

pub proof fn lemma_str_roundtrip(s: Seq<char>, rest: Seq<u8>)
    requires
        str_fits(s),
    ensures
        parse_str(enc_str(s) + rest) == Some((s, rest)),
{
    let b = utf8(s);
    lemma_pow256_facts();
    lemma_le_roundtrip(b.len(), 4);
    let whole = enc_str(s) + rest;
    assert(whole =~= le_bytes(b.len(), 4) + (b + rest));
    lemma_u32_roundtrip(b.len() as u32, b + rest);
    assert((b + rest).take(b.len() as int) =~= b);
    assert((b + rest).skip(b.len() as int) =~= rest);
}

pub proof fn lemma_key_roundtrip(k: Seq<u8>, rest: Seq<u8>)
    requires
        k.len() == 32,
    ensures
        parse_key(enc_key(k) + rest) == Some((k, rest)),
{
    assert((k + rest).take(32) =~= k);
    assert((k + rest).skip(32) =~= rest);
}

pub proof fn lemma_opt_key_roundtrip(k: Option<Seq<u8>>, rest: Seq<u8>)
    requires
        k matches Some(key) ==> key.len() == 32,
    ensures
        parse_opt_key(enc_opt_key(k) + rest) == Some((k, rest)),
{
    match k {
        None => {
            assert((seq![0u8] + rest).skip(1) =~= rest);
        },
        Some(key) => {
            assert((seq![1u8] + key + rest).skip(1) =~= key + rest);
            lemma_key_roundtrip(key, rest);
        },
    }
}

/// A string read from bytes fits its length prefix.
pub proof fn lemma_parse_str_fits(s: Seq<u8>)
    ensures
        parse_str(s) matches Some((t, _)) ==> str_fits(t),
{
    if let Some((n, rest)) = parse_u32(s) {
        if rest.len() >= n && valid_utf8(rest.take(n as int)) {
            decode_utf8_encode_utf8(rest.take(n as int));
        }
    }
}

// ---------------------------------------------------------------------------
// Writers.
/// Appends the layout of a `u128`.
pub fn write_u128(out: &mut Vec<u8>, x: u128)
    ensures
        final(out)@ == old(out)@ + enc_u128(x),
{
    let ghost start = out@;
    let mut v: u128 = x;
    let mut i: usize = 0;
    while i < 16
        invariant
            i <= 16,
            out@ + le_bytes(v as nat, (16 - i) as nat) == start + le_bytes(x as nat, 16),
        decreases 16 - i,
    {
        let ghost before = out@;
        let ghost vv = v as nat;
        out.push((v % 256) as u8);
        assert(le_bytes(vv, (16 - i) as nat) =~= seq![(vv % 256) as u8] + le_bytes(vv / 256, (16 - i - 1) as nat));
        assert(out@ =~= before + seq![(vv % 256) as u8]);
        v = v / 256;
        i = i + 1;
        assert(out@ + le_bytes(v as nat, (16 - i) as nat) =~= before + le_bytes(vv, (16 - (i - 1)) as nat));
    }
    assert(le_bytes(v as nat, 0) =~= Seq::<u8>::empty());
    assert(out@ =~= start + le_bytes(x as nat, 16));
}

/// Appends the layout of a `u32`.
pub fn write_u32(out: &mut Vec<u8>, x: u32)
    ensures
        final(out)@ == old(out)@ + enc_u32(x),
{
    let ghost start = out@;
    let mut v: u32 = x;
    let mut i: usize = 0;
    while i < 4
        invariant
            i <= 4,
            out@ + le_bytes(v as nat, (4 - i) as nat) == start + le_bytes(x as nat, 4),
        decreases 4 - i,
    {
        let ghost before = out@;
        let ghost vv = v as nat;
        out.push((v % 256) as u8);
        assert(le_bytes(vv, (4 - i) as nat) =~= seq![(vv % 256) as u8] + le_bytes(vv / 256, (4 - i - 1) as nat));
        assert(out@ =~= before + seq![(vv % 256) as u8]);
        v = v / 256;
        i = i + 1;
        assert(out@ + le_bytes(v as nat, (4 - i) as nat) =~= before + le_bytes(vv, (4 - (i - 1)) as nat));
    }
    assert(le_bytes(v as nat, 0) =~= Seq::<u8>::empty());
    assert(out@ =~= start + le_bytes(x as nat, 4));
}

/// Appends the layout of a boolean.
pub fn write_bool(out: &mut Vec<u8>, b: bool)
    ensures
        final(out)@ == old(out)@ + enc_bool(b),
{
    if b {
        out.push(1u8);
    } else {
        out.push(0u8);
    }
}

/// Appends a byte sequence as it is.
pub fn write_raw(out: &mut Vec<u8>, bytes: &[u8])
    ensures
        final(out)@ == old(out)@ + bytes@,
{
    let ghost start = out@;
    let mut i: usize = 0;
    while i < bytes.len()
        invariant
            i <= bytes@.len(),
            out@ == start + bytes@.take(i as int),
        decreases bytes@.len() - i,
    {
        out.push(bytes[i]);
        i = i + 1;
        assert(out@ =~= start + bytes@.take(i as int));
    }
    assert(bytes@.take(i as int) =~= bytes@);
}

/// Appends the layout of a string, or returns false, appending nothing, when
/// its byte length does not fit the length prefix.
pub fn write_str(out: &mut Vec<u8>, s: &str) -> (ok: bool)
    ensures
        ok == str_fits(s@),
        ok ==> final(out)@ == old(out)@ + enc_str(s@),
        !ok ==> final(out)@ == old(out)@,
{
    let bytes = s.as_bytes();
    let n = bytes.len();
    if n > 0xffff_ffff {
        return false;
    }
    write_u32(out, n as u32);
    write_raw(out, bytes);
    true
}

/// Appends the layout of an optional key.
pub fn write_opt_key(out: &mut Vec<u8>, k: &Option<[u8; 32]>)
    ensures
        final(out)@ == old(out)@ + enc_opt_key(
            match k {
                None => None,
                Some(a) => Some(a@),
            },
        ),
{
    match k {
        None => {
            out.push(0u8);
        },
        Some(a) => {
            out.push(1u8);
            write_raw(out, a.as_slice());
        },
    }
}

// ---------------------------------------------------------------------------
// Readers.
/// Reads a `u128` at `pos`.
pub fn read_u128(data: &[u8], pos: usize) -> (r: Option<(u128, usize)>)
    requires
        pos <= data@.len(),
    ensures
        match parse_u128(data@.skip(pos as int)) {
            None => r is None,
            Some((v, rest)) => r matches Some((x, p)) && x == v && p <= data@.len() && rest
                == data@.skip(p as int),
        },
{
    if data.len() - pos < 16 {
        return None;
    }
    let ghost s = data@.skip(pos as int).take(16);
    let mut acc: u128 = 0;
    let mut i: usize = 16;
    let len = data.len();
    proof {
        lemma_pow256_facts();
    }
    while i > 0
        invariant
            0 <= i <= 16,
            len == data@.len(),
            pos + 16 <= data@.len(),
            s == data@.skip(pos as int).take(16),
            acc as nat == le_value(s.skip(i as int)),
            pow256(16) == 0x1_0000_0000_0000_0000_0000_0000_0000_0000,
        decreases i,
    {
        let ghost tail = s.skip(i as int);
        proof {
            lemma_le_value_bound(tail);
            assert(s.skip(i - 1) =~= seq![s[i - 1]] + tail);
            assert(s.skip(i - 1).drop_first() =~= tail);
            lemma_pow_le(tail.len(), 15);
        }
        let b = data[pos + i - 1];
        assert(b == s[i - 1]);
        acc = acc * 256 + b as u128;
        i = i - 1;
    }
    assert(s.skip(0) =~= s);
    assert(data@.skip(pos as int).skip(16) =~= data@.skip(pos + 16));
    Some((acc, pos + 16))
}

/// `256^a <= 256^b` when `a <= b`, and `256^15 * 256 == 256^16`.
proof fn lemma_pow_le(a: nat, b: nat)
    requires
        a <= b,
    ensures
        pow256(a) <= pow256(b),
        b == 15 ==> pow256(15) * 256 == pow256(16),
    decreases b,
{
    if a < b {
        lemma_pow_le(a, (b - 1) as nat);
        lemma_pow256_positive((b - 1) as nat);
    }
    reveal_with_fuel(pow256, 17);
}

/// Reads a `u32` at `pos`.
pub fn read_u32(data: &[u8], pos: usize) -> (r: Option<(u32, usize)>)
    requires
        pos <= data@.len(),
    ensures
        match parse_u32(data@.skip(pos as int)) {
            None => r is None,
            Some((v, rest)) => r matches Some((x, p)) && x == v && p <= data@.len() && rest
                == data@.skip(p as int),
        },
{
    if data.len() - pos < 4 {
        return None;
    }
    let ghost s = data@.skip(pos as int).take(4);
    let b0 = data[pos] as u32;
    let b1 = data[pos + 1] as u32;
    let b2 = data[pos + 2] as u32;
    let b3 = data[pos + 3] as u32;
    proof {
        assert(s.drop_first().drop_first().drop_first().drop_first() =~= Seq::<u8>::empty());
        reveal_with_fuel(le_value, 5);
    }
    let v = b0 + 256 * (b1 + 256 * (b2 + 256 * b3));
    assert(data@.skip(pos as int).skip(4) =~= data@.skip(pos + 4));
    Some((v, pos + 4))
}

/// Reads a byte at `pos`.
pub fn read_u8(data: &[u8], pos: usize) -> (r: Option<(u8, usize)>)
    requires
        pos <= data@.len(),
    ensures
        match parse_u8(data@.skip(pos as int)) {
            None => r is None,
            Some((v, rest)) => r matches Some((x, p)) && x == v && p <= data@.len() && rest
                == data@.skip(p as int),
        },
{
    if pos >= data.len() {
        return None;
    }
    assert(data@.skip(pos as int).skip(1) =~= data@.skip(pos + 1));
    Some((data[pos], pos + 1))
}

/// Reads a boolean at `pos`.
pub fn read_bool(data: &[u8], pos: usize) -> (r: Option<(bool, usize)>)
    requires
        pos <= data@.len(),
    ensures
        match parse_bool(data@.skip(pos as int)) {
            None => r is None,
            Some((v, rest)) => r matches Some((x, p)) && x == v && p <= data@.len() && rest
                == data@.skip(p as int),
        },
{
    if pos >= data.len() || data[pos] > 1 {
        return None;
    }
    assert(data@.skip(pos as int).skip(1) =~= data@.skip(pos + 1));
    Some((data[pos] == 1, pos + 1))
}

/// Reads a 32-byte key at `pos`.
pub fn read_key(data: &[u8], pos: usize) -> (r: Option<([u8; 32], usize)>)
    requires
        pos <= data@.len(),
    ensures
        match parse_key(data@.skip(pos as int)) {
            None => r is None,
            Some((v, rest)) => r matches Some((x, p)) && x@ == v && p <= data@.len() && rest
                == data@.skip(p as int),
        },
{
    if data.len() - pos < 32 {
        return None;
    }
    let mut a: [u8; 32] = [0u8; 32];
    let mut i: usize = 0;
    let len = data.len();
    while i < 32
        invariant
            i <= 32,
            len == data@.len(),
            pos + 32 <= data@.len(),
            a@.len() == 32,
            forall|j: int| 0 <= j < i ==> a@[j] == data@[pos + j],
        decreases 32 - i,
    {
        a[i] = data[pos + i];
        i = i + 1;
    }
    assert(a@ =~= data@.skip(pos as int).take(32));
    assert(data@.skip(pos as int).skip(32) =~= data@.skip(pos + 32));
    Some((a, pos + 32))
}

/// Reads an optional key at `pos`.
pub fn read_opt_key(data: &[u8], pos: usize) -> (r: Option<(Option<[u8; 32]>, usize)>)
    requires
        pos <= data@.len(),
    ensures
        match parse_opt_key(data@.skip(pos as int)) {
            None => r is None,
            Some((v, rest)) => r matches Some((x, p)) && v == (match x {
                None => None,
                Some(a) => Some(a@),
            }) && p <= data@.len() && rest == data@.skip(p as int),
        },
{
    if pos >= data.len() || data[pos] > 1 {
        return None;
    }
    assert(data@.skip(pos as int).skip(1) =~= data@.skip(pos + 1));
    if data[pos] == 0 {
        return Some((None, pos + 1));
    }
    match read_key(data, pos + 1) {
        None => None,
        Some((k, p)) => Some((Some(k), p)),
    }
}

/// Reads a string at `pos`.
pub fn read_str(data: &[u8], pos: usize) -> (r: Option<(String, usize)>)
    requires
        pos <= data@.len(),
    ensures
        match parse_str(data@.skip(pos as int)) {
            None => r is None,
            Some((v, rest)) => r matches Some((x, p)) && x@ == v && p <= data@.len() && rest
                == data@.skip(p as int),
        },
{
    let (n, p) = match read_u32(data, pos) {
        None => { return None; },
        Some(x) => x,
    };
    let n = n as usize;
    if data.len() - p < n {
        return None;
    }
    let mut bytes: Vec<u8> = Vec::new();
    let mut i: usize = 0;
    let len = data.len();
    while i < n
        invariant
            i <= n,
            len == data@.len(),
            p + n <= data@.len(),
            bytes@ == data@.subrange(p as int, p + i),
        decreases n - i,
    {
        bytes.push(data[p + i]);
        i = i + 1;
        assert(bytes@ =~= data@.subrange(p as int, p + i));
    }
    assert(data@.skip(p as int).take(n as int) =~= bytes@);
    assert(data@.skip(p as int).skip(n as int) =~= data@.skip(p + n));
    match string_from_utf8(bytes) {
        None => None,
        Some(s) => Some((s, p + n)),
    }
}

/// The bytes of a slice, in a vector.
pub(crate) fn copy_bytes(a: &[u8]) -> (v: Vec<u8>)
    ensures
        v@ == a@,
{
    let mut v: Vec<u8> = Vec::new();
    let mut i: usize = 0;
    while i < a.len()
        invariant
            i <= a@.len(),
            v@ == a@.take(i as int),
        decreases a@.len() - i,
    {
        v.push(a[i]);
        i = i + 1;
        assert(v@ =~= a@.take(i as int));
    }
    assert(a@.take(i as int) =~= a@);
    v
}

/// An account's data after `bytes` were written over its front.
pub open spec fn overwrite(data: Seq<u8>, bytes: Seq<u8>) -> Seq<u8> {
    bytes + data.skip(bytes.len() as int)
}

/// Writes `bytes` over the front of an account's data, as serialising into
/// the account's fixed-size buffer does; fails, changing nothing, when they
/// do not fit.
pub fn write_prefix(data: &mut Vec<u8>, bytes: &Vec<u8>) -> (ok: bool)
    ensures
        ok == (bytes@.len() <= old(data)@.len()),
        ok ==> final(data)@ == overwrite(old(data)@, bytes@),
        !ok ==> final(data)@ == old(data)@,
{
    if bytes.len() > data.len() {
        return false;
    }
    let ghost start = data@;
    let mut i: usize = 0;
    while i < bytes.len()
        invariant
            i <= bytes@.len(),
            bytes@.len() <= start.len(),
            data@.len() == start.len(),
            data@ == bytes@.take(i as int) + start.skip(i as int),
        decreases bytes@.len() - i,
    {
        data.set(i, bytes[i]);
        i = i + 1;
        assert(data@ =~= bytes@.take(i as int) + start.skip(i as int));
    }
    assert(bytes@.take(i as int) =~= bytes@);
    true
}

/// `String::from_utf8`: a string holding the given bytes, when they are
/// valid UTF-8 (the standard library documents that it fails exactly when
/// they are not); the string's characters are then the bytes decoded.
#[verifier::external_body]
pub(crate) fn string_from_utf8(bytes: Vec<u8>) -> (r: Option<String>)
    ensures
        r is Some <==> valid_utf8(bytes@),
        r matches Some(s) ==> s@ == decode_utf8(bytes@),
{
    String::from_utf8(bytes).ok()
}

} // verus!
