//! The valid-combination record and its on-disk binary form: a bare
//! concatenation of fixed-width 4-byte records
//! `[lightness:1][saturation:1][offset:2 little-endian]`, one cache file per
//! background hex key.

use vstd::prelude::*;

verus! {

/// One grid point that passed the search: lightness and saturation as
/// integer percentages, hue offset in integer degrees.
#[derive(Clone, Copy, Debug, PartialEq, Eq, Structural)]
pub struct ValidCombination {
    pub lightness: u8,
    pub saturation: u8,
    pub offset: u16,
}

/// Field ranges of a combination that the search can produce.
pub open spec fn combination_wf(c: ValidCombination) -> bool {
    c.lightness <= 100 && c.saturation <= 100 && c.offset < 360
}

/// The 4-byte record for one combination, offset in little-endian order.
pub open spec fn record_bytes(c: ValidCombination) -> Seq<u8> {
    seq![c.lightness, c.saturation, (c.offset as int % 256) as u8, (c.offset as int / 256) as u8]
}

/// The byte stream for a sequence of combinations: records concatenated in
/// sequence order, no header and no padding.
pub open spec fn encoded(s: Seq<ValidCombination>) -> Seq<u8>
    decreases s.len(),
{
    if s.len() == 0 {
        Seq::empty()
    } else {
        record_bytes(s[0]) + encoded(s.skip(1))
    }
}

/// The combination read back from one 4-byte record.
pub open spec fn record_of(b0: u8, b1: u8, b2: u8, b3: u8) -> ValidCombination {
    ValidCombination { lightness: b0, saturation: b1, offset: (b2 as int + 256 * b3 as int) as u16 }
}

/// The combinations read from a byte stream, in file order; a trailing
/// partial record (fewer than 4 bytes) is dropped.
pub open spec fn decoded(d: Seq<u8>) -> Seq<ValidCombination>
    decreases d.len(),
{
    if d.len() < 4 {
        Seq::empty()
    } else {
        seq![record_of(d[0], d[1], d[2], d[3])] + decoded(d.skip(4))
    }
}

proof fn lemma_encoded_push(s: Seq<ValidCombination>, c: ValidCombination)
    ensures
        encoded(s.push(c)) =~= encoded(s) + record_bytes(c),
    decreases s.len(),
{
    if s.len() == 0 {
        assert(s.push(c)[0] == c);
        assert(s.push(c).skip(1) =~= Seq::<ValidCombination>::empty());
        assert(encoded(s.push(c).skip(1)) =~= Seq::<u8>::empty());
        assert(encoded(s.push(c)) =~= record_bytes(c));
        assert(encoded(s) =~= Seq::<u8>::empty());
    } else {
        assert(s.push(c)[0] == s[0]);
        assert(s.push(c).skip(1) =~= s.skip(1).push(c));
        lemma_encoded_push(s.skip(1), c);
        assert(encoded(s.push(c)) =~= record_bytes(s[0]) + (encoded(s.skip(1)) + record_bytes(c)));
    }
}

/// Decoding distributes over concatenation at a record boundary.
proof fn lemma_decoded_concat(a: Seq<u8>, b: Seq<u8>)
    requires
        a.len() % 4 == 0,
    ensures
        decoded(a + b) =~= decoded(a) + decoded(b),
    decreases a.len(),
{
    if a.len() == 0 {
        assert(a + b =~= b);
    } else {
        assert(a.len() >= 4);
        assert((a + b).len() >= 4);
        assert((a + b).skip(4) =~= a.skip(4) + b);
        assert(a.skip(4).len() % 4 == 0);
        lemma_decoded_concat(a.skip(4), b);
        assert((a + b)[0] == a[0] && (a + b)[1] == a[1] && (a + b)[2] == a[2] && (a + b)[3]
            == a[3]);
        assert(decoded(a)[0] == record_of(a[0], a[1], a[2], a[3]));
    }
}

/// Every encoded stream is 4 bytes per record.
pub proof fn lemma_encoded_len(s: Seq<ValidCombination>)
    ensures
        encoded(s).len() == 4 * s.len(),
    decreases s.len(),
{
    if s.len() > 0 {
        lemma_encoded_len(s.skip(1));
    }
}

/// Cache round trip: decoding an encoded sequence of combinations yields
/// exactly the original sequence, element for element and in order.
pub proof fn lemma_cache_round_trip(s: Seq<ValidCombination>)
    ensures
        decoded(encoded(s)) =~= s,
    decreases s.len(),
{
    if s.len() > 0 {
        let c = s[0];
        let e = encoded(s);
        lemma_encoded_len(s);
        assert(e.len() >= 4);
        assert(e.skip(4) =~= encoded(s.skip(1)));
        lemma_cache_round_trip(s.skip(1));
        assert(c.offset as int == 256 * (c.offset as int / 256) + c.offset as int % 256) by {
            vstd::arithmetic::div_mod::lemma_fundamental_div_mod(c.offset as int, 256);
        }
        assert(record_of(e[0], e[1], e[2], e[3]) == c);
    }
}

/// Encodes combinations into the cache byte stream, in sequence order.
pub fn encode_combs(combs: &Vec<ValidCombination>) -> (data: Vec<u8>)
    ensures
        data@ == encoded(combs@),
{
    let mut data: Vec<u8> = Vec::new();
    let mut i: usize = 0;
    while i < combs.len()
        invariant
            0 <= i <= combs@.len(),
            data@ =~= encoded(combs@.take(i as int)),
        decreases combs@.len() - i,
    {
        let c = combs[i];
        data.push(c.lightness);
        data.push(c.saturation);
        data.push((c.offset % 256) as u8);
        data.push((c.offset / 256) as u8);
        proof {
            lemma_encoded_push(combs@.take(i as int), c);
            assert(combs@.take(i as int).push(c) =~= combs@.take(i as int + 1));
        }
        i = i + 1;
    }
    proof {
        assert(combs@.take(combs@.len() as int) =~= combs@);
    }
    data
}

/// Decodes a cache byte stream into combinations, in file order, dropping
/// any trailing partial record.
pub fn decode_combs(data: &Vec<u8>) -> (combs: Vec<ValidCombination>)
    ensures
        combs@ == decoded(data@),
        combs@.len() == data@.len() / 4,
{
    let mut combs: Vec<ValidCombination> = Vec::new();
    let mut i: usize = 0;
    while data.len() - i >= 4
        invariant
            0 <= i <= data@.len(),
            i % 4 == 0,
            combs@ =~= decoded(data@.take(i as int)),
            combs@.len() == i / 4,
        decreases data@.len() - i,
    {
        let b2 = data[i + 2];
        let b3 = data[i + 3];
        let c = ValidCombination {
            lightness: data[i],
            saturation: data[i + 1],
            offset: b2 as u16 + 256 * (b3 as u16),
        };
        proof {
            let pre = data@.take(i as int);
            let rec = data@.subrange(i as int, i as int + 4);
            assert(data@.take(i as int + 4) =~= pre + rec);
            lemma_decoded_concat(pre, rec);
            assert(rec.len() == 4);
            assert(decoded(rec.skip(4)) =~= Seq::<ValidCombination>::empty());
            assert(decoded(rec) =~= seq![record_of(rec[0], rec[1], rec[2], rec[3])]);
            assert(combs@.push(c) =~= decoded(data@.take(i as int + 4)));
        }
        combs.push(c);
        i = i + 4;
    }
    proof {
        let pre = data@.take(i as int);
        let rest = data@.subrange(i as int, data@.len() as int);
        assert(data@ =~= pre + rest);
        assert(rest.len() < 4);
        lemma_decoded_concat(pre, rest);
        assert(decoded(rest) =~= Seq::<ValidCombination>::empty());
        assert(combs@ =~= decoded(data@));
    }
    combs
}

/// The cache key for a background: the fixed cache file base name followed by
/// the background's hex string exactly as given (case preserved).
pub open spec fn cache_key_of(bg: Seq<char>) -> Seq<char> {
    "valid_combs.bin."@ + bg
}

/// Builds the cache file key for a background string.
pub fn cache_key(bg: &str) -> (r: String)
    ensures
        r@ == cache_key_of(bg@),
{
    let base = String::from_str("valid_combs.bin.");
    base.concat(bg)
}

/// Cache-key sensitivity: two backgrounds share a cache key only if they are
/// the same string, so distinct backgrounds never read or populate each
/// other's cache entries.
pub proof fn lemma_cache_key_injective(a: Seq<char>, b: Seq<char>)
    requires
        cache_key_of(a) == cache_key_of(b),
    ensures
        a =~= b,
{
    reveal_strlit("valid_combs.bin.");
    let p = "valid_combs.bin."@;
    assert((p + a).skip(p.len() as int) =~= a);
    assert((p + b).skip(p.len() as int) =~= b);
}

} // verus!
