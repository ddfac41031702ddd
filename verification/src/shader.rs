//! Shader identifiers and variant hashing

use std::cmp::Ordering;

use vstd::prelude::*;
use vstd::std_specs::cmp::PartialOrdSpecImpl;
use vstd::string::StringExecFns;

verus! {

/// The 64-bit XXH3 hash of the bytes, with the default seed and secret
pub uninterp spec fn xxh3_64(input: Seq<u8>) -> u64;

/// One-shot XXH3 64-bit hash (`twox_hash::xxhash3_64::Hasher::oneshot`). The hash is a
/// fixed function of the input bytes, named [xxh3_64]; nothing more of it is stated
#[verifier::external_body]
fn xxh3_oneshot(input: &[u8]) -> (r: u64)
    ensures
        r == xxh3_64(input@),
{
    twox_hash::xxhash3_64::Hasher::oneshot(input)
}

/// Unique identifier for a shader. Never zero
#[derive(Clone, Copy, PartialEq, Eq, Structural, Debug, Hash)]
pub struct ShaderId(pub u64);

/// The ASCII decimal digits of the number, without leading zeros
pub open spec fn decimal(n: nat) -> Seq<u8>
    decreases n,
{
    if n < 10 {
        seq![(48 + n) as u8]
    } else {
        decimal(n / 10).push((48 + n % 10) as u8)
    }
}

/// `k=v`: the keyword's UTF-8 bytes, `=`, and the value in decimal
pub open spec fn keyword_entry(keyword: Seq<char>, value: u64) -> Seq<u8> {
    vstd::utf8::encode_utf8(keyword) + seq![0x3du8] + decimal(value as nat)
}

/// The entries of all keywords, in the given order
pub open spec fn keyword_entries(keywords: Seq<(String, u64)>) -> Seq<Seq<u8>> {
    Seq::new(keywords.len(), |i: int| keyword_entry(keywords[i].0@, keywords[i].1))
}

/// Byte-wise lexicographic order, a prefix before its extensions
pub open spec fn lex_lt(a: Seq<u8>, b: Seq<u8>) -> bool
    decreases a.len(),
{
    if a.len() == 0 {
        b.len() > 0
    } else if b.len() == 0 {
        false
    } else if a[0] < b[0] {
        true
    } else if a[0] > b[0] {
        false
    } else {
        lex_lt(a.drop_first(), b.drop_first())
    }
}

/// The entries are in lexicographic order
pub open spec fn sorted_lex(s: Seq<Seq<u8>>) -> bool {
    forall|i: int, j: int| 0 <= i < j < s.len() ==> !lex_lt(#[trigger] s[j], #[trigger] s[i])
}

/// The byte sequences held by the vectors
pub open spec fn views(s: Seq<Vec<u8>>) -> Seq<Seq<u8>> {
    s.map_values(|e: Vec<u8>| e@)
}

/// The entries joined with `-` between them
pub open spec fn join_dash(s: Seq<Seq<u8>>) -> Seq<u8>
    decreases s.len(),
{
    if s.len() == 0 {
        Seq::empty()
    } else if s.len() == 1 {
        s[0]
    } else {
        join_dash(s.drop_last()) + seq![0x2du8] + s.last()
    }
}

proof fn lemma_lex_irreflexive(a: Seq<u8>)
    ensures
        !lex_lt(a, a),
    decreases a.len(),
{
    if a.len() > 0 {
        lemma_lex_irreflexive(a.drop_first());
    }
}

proof fn lemma_lex_transitive(a: Seq<u8>, b: Seq<u8>, c: Seq<u8>)
    requires
        lex_lt(a, b),
        lex_lt(b, c),
    ensures
        lex_lt(a, c),
    decreases a.len(),
{
    if a.len() > 0 && b.len() > 0 && c.len() > 0 && a[0] == b[0] && b[0] == c[0] {
        lemma_lex_transitive(a.drop_first(), b.drop_first(), c.drop_first());
    }
}

proof fn lemma_lex_total(a: Seq<u8>, b: Seq<u8>)
    ensures
        a =~= b || lex_lt(a, b) || lex_lt(b, a),
    decreases a.len(),
{
    if a.len() > 0 && b.len() > 0 && a[0] == b[0] {
        lemma_lex_total(a.drop_first(), b.drop_first());
        if a.drop_first() =~= b.drop_first() {
            assert(a =~= seq![a[0]] + a.drop_first());
            assert(b =~= seq![b[0]] + b.drop_first());
        }
    }
}

/// Whether `a` comes before `b` in byte-wise lexicographic order
fn lex_less(a: &Vec<u8>, b: &Vec<u8>) -> (r: bool)
    ensures
        r == lex_lt(a@, b@),
{
    let mut i: usize = 0;
    assert(a@.subrange(0, a@.len() as int) =~= a@);
    assert(b@.subrange(0, b@.len() as int) =~= b@);
    while i < a.len() && i < b.len()
        invariant
            0 <= i <= a@.len(),
            i <= b@.len(),
            lex_lt(a@, b@) == lex_lt(a@.subrange(i as int, a@.len() as int), b@.subrange(i as int, b@.len() as int)),
        decreases a.len() - i,
    {
        let ghost sa = a@.subrange(i as int, a@.len() as int);
        let ghost sb = b@.subrange(i as int, b@.len() as int);
        assert(sa[0] == a@[i as int] && sb[0] == b@[i as int]);
        if a[i] < b[i] {
            return true;
        }
        if a[i] > b[i] {
            return false;
        }
        assert(sa.drop_first() =~= a@.subrange(i + 1, a@.len() as int));
        assert(sb.drop_first() =~= b@.subrange(i + 1, b@.len() as int));
        i += 1;
    }
    i < b.len()
}

/// Returns the ASCII decimal digits of the number
fn decimal_bytes(n: u64) -> (r: Vec<u8>)
    ensures
        r@ == decimal(n as nat),
    decreases n,
{
    if n < 10 {
        let mut v: Vec<u8> = Vec::new();
        v.push(48 + n as u8);
        assert(v@ =~= decimal(n as nat));
        v
    } else {
        let mut v = decimal_bytes(n / 10);
        v.push(48 + (n % 10) as u8);
        v
    }
}

/// Returns the entry `k=v` of a keyword
fn keyword_entry_bytes(keyword: &String, value: u64) -> (r: Vec<u8>)
    ensures
        r@ == keyword_entry(keyword@, value),
{
    let mut entry = vstd::slice::slice_to_vec(keyword.as_str().as_bytes());
    entry.push(0x3d);
    let mut digits = decimal_bytes(value);
    entry.append(&mut digits);
    entry
}

/// Returns the entries sorted in lexicographic order
fn sort_entries(entries: Vec<Vec<u8>>) -> (r: Vec<Vec<u8>>)
    ensures
        sorted_lex(views(r@)),
        views(r@).to_multiset() == views(entries@).to_multiset(),
{
    broadcast use vstd::seq_lib::group_to_multiset_ensures;

    let ghost orig = views(entries@);
    let mut out: Vec<Vec<u8>> = Vec::new();
    let mut rest = entries;
    let mut i: usize = 0;
    let n = rest.len();
    while rest.len() > 0
        invariant
            n == orig.len(),
            i + rest@.len() == n,
            views(rest@) == orig.subrange(i as int, n as int),
            sorted_lex(views(out@)),
            views(out@).to_multiset() == orig.subrange(0, i as int).to_multiset(),
        decreases rest.len(),
    {
        let ghost prev_rest = views(rest@);
        let e = rest.remove(0);
        proof {
            assert(e@ == orig[i as int]) by {
                assert(prev_rest[0] == orig.subrange(i as int, n as int)[0]);
            }
            assert(views(rest@) =~= orig.subrange(i + 1, n as int)) by {
                assert forall|k: int| 0 <= k < rest@.len() implies #[trigger] views(rest@)[k] == orig.subrange(i + 1, n as int)[k] by {
                    assert(prev_rest[k + 1] == orig.subrange(i as int, n as int)[k + 1]);
                }
            }
        }
        let mut p: usize = 0;
        while p < out.len() && !lex_less(&e, &out[p])
            invariant
                0 <= p <= out@.len(),
                forall|k: int| 0 <= k < p ==> !lex_lt(e@, #[trigger] out@[k]@),
            decreases out.len() - p,
        {
            p += 1;
        }
        let ghost before = views(out@);
        out.insert(p, e);
        proof {
            let after = views(out@);
            assert(after =~= before.insert(p as int, e@));
            assert forall|a: int, b: int| 0 <= a < b < after.len() implies !lex_lt(#[trigger] after[b], #[trigger] after[a]) by {
                if b < p {
                    assert(after[a] == before[a] && after[b] == before[b]);
                } else if a > p {
                    assert(after[a] == before[a - 1] && after[b] == before[b - 1]);
                } else if a == p {
                    // b > p: after[b] is before[b - 1], at or after the insertion point
                    assert(after[b] == before[b - 1]);
                    assert(lex_lt(e@, before[p as int]));
                    if lex_lt(before[b - 1], e@) {
                        if b - 1 == p {
                            lemma_lex_transitive(e@, before[p as int], e@);
                            lemma_lex_irreflexive(e@);
                        } else {
                            lemma_lex_transitive(before[b - 1], e@, before[p as int]);
                            assert(!lex_lt(before[b - 1], before[p as int]));
                        }
                    }
                } else if b == p {
                    assert(after[a] == before[a]);
                    assert(!lex_lt(e@, out@[a]@));
                } else {
                    assert(after[a] == before[a] && after[b] == before[b - 1]);
                }
            }
            assert(orig.subrange(0, i + 1) =~= orig.subrange(0, i as int).push(e@));
            vstd::seq_lib::to_multiset_insert(before, p as int, e@);
            vstd::seq_lib::to_multiset_build(orig.subrange(0, i as int), e@);
        }
        i += 1;
    }
    assert(orig.subrange(0, n as int) =~= orig);
    out
}

/// Returns the entries joined with `-` between them
fn join_with_dash(parts: &Vec<Vec<u8>>) -> (r: Vec<u8>)
    ensures
        r@ == join_dash(views(parts@)),
{
    let ghost all = views(parts@);
    let mut out: Vec<u8> = Vec::new();
    let mut i: usize = 0;
    while i < parts.len()
        invariant
            0 <= i <= parts@.len(),
            all == views(parts@),
            out@ == join_dash(all.take(i as int)),
        decreases parts.len() - i,
    {
        proof {
            assert(all.take(i + 1).drop_last() =~= all.take(i as int));
            assert(all.take(i + 1).last() == parts@[i as int]@);
            if i == 0 {
                assert(all.take(1) =~= seq![all[0]]);
            }
        }
        if i > 0 {
            out.push(0x2d);
        }
        let mut part = vstd::slice::slice_to_vec(parts[i].as_slice());
        out.append(&mut part);
        i += 1;
    }
    assert(all.take(parts@.len() as int) =~= all);
    out
}

/// `h` is the XXH3 hash of the entries sorted lexicographically and joined with `-`
pub open spec fn is_keyword_hash(entries: Seq<Seq<u8>>, h: u64) -> bool {
    exists|sorted: Seq<Seq<u8>>|
        sorted_lex(sorted) && sorted.to_multiset() == entries.to_multiset() && h == xxh3_64(join_dash(sorted))
}

proof fn lemma_sorted_unique(a: Seq<Seq<u8>>, b: Seq<Seq<u8>>)
    requires
        sorted_lex(a),
        sorted_lex(b),
        a.to_multiset() == b.to_multiset(),
    ensures
        a == b,
    decreases a.len(),
{
    broadcast use vstd::seq_lib::group_to_multiset_ensures;

    assert(a.len() == a.to_multiset().len());
    assert(b.len() == b.to_multiset().len());
    if a.len() == 0 {
        assert(a =~= b);
    } else {
        assert(a.to_multiset().contains(a[0]));
        assert(b.contains(a[0]));
        let k = choose|k: int| 0 <= k < b.len() && b[k] == a[0];
        assert(b.to_multiset().contains(b[0]));
        assert(a.contains(b[0]));
        let l = choose|l: int| 0 <= l < a.len() && a[l] == b[0];
        // b[0] <= b[k] == a[0] <= a[l] == b[0]
        if k > 0 {
            assert(!lex_lt(b[k], b[0]));
        }
        if l > 0 {
            assert(!lex_lt(a[l], a[0]));
        }
        lemma_lex_irreflexive(a[0]);
        lemma_lex_total(a[0], b[0]);
        assert(a[0] == b[0]);
        vstd::seq_lib::to_multiset_remove(a, 0);
        vstd::seq_lib::to_multiset_remove(b, 0);
        assert(a.remove(0) =~= a.drop_first());
        assert(b.remove(0) =~= b.drop_first());
        assert forall|i: int, j: int| 0 <= i < j < a.drop_first().len() implies !lex_lt(#[trigger] a.drop_first()[j], #[trigger] a.drop_first()[i]) by {
            assert(a.drop_first()[j] == a[j + 1] && a.drop_first()[i] == a[i + 1]);
        }
        assert forall|i: int, j: int| 0 <= i < j < b.drop_first().len() implies !lex_lt(#[trigger] b.drop_first()[j], #[trigger] b.drop_first()[i]) by {
            assert(b.drop_first()[j] == b[j + 1] && b.drop_first()[i] == b[i + 1]);
        }
        lemma_sorted_unique(a.drop_first(), b.drop_first());
        assert(a =~= b) by {
            assert forall|i: int| 0 <= i < a.len() implies a[i] == b[i] by {
                if i > 0 {
                    assert(a[i] == a.drop_first()[i - 1]);
                    assert(b[i] == b.drop_first()[i - 1]);
                }
            }
        }
    }
}

/// The keyword hash does not depend on the order of the keywords: keyword lists with the
/// same `k=v` entries, in any order, hash alike
pub proof fn lemma_keyword_hash_order_independent(k1: Seq<(String, u64)>, k2: Seq<(String, u64)>, h1: u64, h2: u64)
    requires
        keyword_entries(k1).to_multiset() == keyword_entries(k2).to_multiset(),
        is_keyword_hash(keyword_entries(k1), h1),
        is_keyword_hash(keyword_entries(k2), h2),
    ensures
        h1 == h2,
{
    let s1 = choose|sorted: Seq<Seq<u8>>|
        sorted_lex(sorted) && sorted.to_multiset() == keyword_entries(k1).to_multiset() && h1 == xxh3_64(join_dash(sorted));
    let s2 = choose|sorted: Seq<Seq<u8>>|
        sorted_lex(sorted) && sorted.to_multiset() == keyword_entries(k2).to_multiset() && h2 == xxh3_64(join_dash(sorted));
    lemma_sorted_unique(s1, s2);
}

/// The hash of a shader's identifier: the XXH3 hash of its little-endian bytes
pub fn hash_shader_source_id(id: ShaderId) -> (r: u64)
    ensures
        r == xxh3_64(vstd::bytes::spec_u64_to_le_bytes(id.0)),
{
    let bytes = vstd::bytes::u64_to_le_bytes(id.0);
    xxh3_oneshot(bytes.as_slice())
}

/// The hash of a set of keywords with their values: the XXH3 hash of their entries `k=v`,
/// sorted lexicographically and joined with `-`. The sorted arrangement of the entries is
/// unique, so the hash does not depend on the order in which the keywords are given
pub fn hash_shader_keywords(keywords: &Vec<(String, u64)>) -> (r: u64)
    ensures
        is_keyword_hash(keyword_entries(keywords@), r),
{
    let mut entries: Vec<Vec<u8>> = Vec::new();
    let mut i: usize = 0;
    while i < keywords.len()
        invariant
            0 <= i <= keywords@.len(),
            entries@.len() == i,
            views(entries@) == keyword_entries(keywords@).take(i as int),
        decreases keywords.len() - i,
    {
        let entry = keyword_entry_bytes(&keywords[i].0, keywords[i].1);
        let ghost prev = entries@;
        entries.push(entry);
        proof {
            assert forall|k: int| 0 <= k <= i implies #[trigger] views(entries@)[k] == keyword_entries(keywords@).take(i + 1)[k] by {
                if k < i {
                    assert(entries@[k] == prev[k]);
                    assert(views(prev)[k] == keyword_entries(keywords@).take(i as int)[k]);
                }
            }
            assert(views(entries@) =~= keyword_entries(keywords@).take(i + 1));
        }
        i += 1;
    }
    assert(keyword_entries(keywords@).take(keywords@.len() as int) =~= keyword_entries(keywords@));
    let sorted = sort_entries(entries);
    let joined = join_with_dash(&sorted);
    let h = xxh3_oneshot(joined.as_slice());
    assert(sorted_lex(views(sorted@)) && views(sorted@).to_multiset() == keyword_entries(keywords@).to_multiset()
        && h == xxh3_64(join_dash(views(sorted@))));
    h
}

/// The identifier of the variant of a shader compiled with the given keywords
pub fn calculate_variant_id(shader_id: ShaderId, keywords: &Vec<(String, u64)>) -> (r: CompiledShaderId)
    ensures
        r.0 == variant_bits(
            xxh3_64(vstd::bytes::spec_u64_to_le_bytes(shader_id.0)),
            (r.0 % 0x1_0000_0000_0000_0000u128) as u64,
        ),
        is_keyword_hash(keyword_entries(keywords@), (r.0 % 0x1_0000_0000_0000_0000u128) as u64),
{
    let source = hash_shader_source_id(shader_id);
    let kw = hash_shader_keywords(keywords);
    let id = CompiledShaderId::from_hashes(source, kw);
    proof {
        lemma_variant_id_roundtrip(source, kw);
    }
    id
}

/// Unique ID for a compiled shader variant. Built from the hash of the source
/// shader (upper 64 bits) and the hash of the active keywords (lower 64 bits)
#[derive(Clone, Copy, PartialEq, Eq, Structural, Debug, Ord, Hash)]
pub struct CompiledShaderId(pub u128);

/// Variant IDs are ordered by their 128-bit value: by the source hash first, then by the
/// keyword hash
pub open spec fn shader_id_order(a: CompiledShaderId, b: CompiledShaderId) -> Option<Ordering> {
    if a.0 < b.0 {
        Some(Ordering::Less)
    } else if a.0 == b.0 {
        Some(Ordering::Equal)
    } else {
        Some(Ordering::Greater)
    }
}

impl PartialOrd for CompiledShaderId {
    fn partial_cmp(&self, other: &Self) -> (r: Option<Ordering>) {
        if self.0 < other.0 {
            Some(Ordering::Less)
        } else if self.0 == other.0 {
            Some(Ordering::Equal)
        } else {
            Some(Ordering::Greater)
        }
    }
}

impl PartialOrdSpecImpl for CompiledShaderId {
    open spec fn obeys_partial_cmp_spec() -> bool {
        true
    }

    open spec fn partial_cmp_spec(&self, other: &Self) -> Option<Ordering> {
        shader_id_order(*self, *other)
    }
}

/// The lowercase hexadecimal digit of a value below sixteen
pub open spec fn hex_char(d: nat) -> char {
    if d == 0 { '0' } else if d == 1 { '1' } else if d == 2 { '2' } else if d == 3 { '3' } else if d == 4 { '4' }
    else if d == 5 { '5' } else if d == 6 { '6' } else if d == 7 { '7' } else if d == 8 { '8' } else if d == 9 { '9' }
    else if d == 10 { 'a' } else if d == 11 { 'b' } else if d == 12 { 'c' } else if d == 13 { 'd' } else if d == 14 { 'e' }
    else { 'f' }
}

/// The lowest `n` hexadecimal digits of `v`, most significant first, zero-padded
pub open spec fn hex_digits(v: nat, n: nat) -> Seq<char>
    decreases n,
{
    if n == 0 {
        seq![]
    } else {
        hex_digits(v / 16, (n - 1) as nat).push(hex_char(v % 16))
    }
}

fn hex_digit_str(d: u8) -> (r: &'static str)
    requires
        d < 16,
    ensures
        r@ == seq![hex_char(d as nat)],
{
    proof {
        reveal_strlit("0");
        reveal_strlit("1");
        reveal_strlit("2");
        reveal_strlit("3");
        reveal_strlit("4");
        reveal_strlit("5");
        reveal_strlit("6");
        reveal_strlit("7");
        reveal_strlit("8");
        reveal_strlit("9");
        reveal_strlit("a");
        reveal_strlit("b");
        reveal_strlit("c");
        reveal_strlit("d");
        reveal_strlit("e");
        reveal_strlit("f");
    }
    match d {
        0 => "0",
        1 => "1",
        2 => "2",
        3 => "3",
        4 => "4",
        5 => "5",
        6 => "6",
        7 => "7",
        8 => "8",
        9 => "9",
        10 => "a",
        11 => "b",
        12 => "c",
        13 => "d",
        14 => "e",
        _ => "f",
    }
}

fn hex_string(v: u128, n: usize) -> (r: String)
    ensures
        r@ == hex_digits(v as nat, n as nat),
    decreases n,
{
    if n == 0 {
        return String::new();
    }
    let mut s = hex_string(v / 16, n - 1);
    let digit = (v % 16) as u8;
    s.append(hex_digit_str(digit));
    s
}

/// The 128-bit value of a variant ID built from the two hashes
pub open spec fn variant_bits(source_shader_hash: u64, keyword_hash: u64) -> u128 {
    ((source_shader_hash as u128) << 64u128) | (keyword_hash as u128)
}

impl CompiledShaderId {
    /// Constructs a new [CompiledShaderId] based on the hashes of the source and keywords
    pub fn from_hashes(source_shader_hash: u64, keyword_hash: u64) -> (r: Self)
        ensures
            r.0 == variant_bits(source_shader_hash, keyword_hash),
            r.0 == source_shader_hash as int * 0x1_0000_0000_0000_0000int + keyword_hash as int,
    {
        let v: u128 = ((source_shader_hash as u128) << 64u128) | (keyword_hash as u128);
        assert(v == source_shader_hash as int * 0x1_0000_0000_0000_0000int + keyword_hash as int)
            by (bit_vector)
            requires
                v == ((source_shader_hash as u128) << 64u128) | (keyword_hash as u128),
        ;
        CompiledShaderId(v)
    }

    /// The ID as text: its 128-bit value as 32 lowercase hexadecimal digits, zero-padded
    pub fn to_string(&self) -> (r: String)
        ensures
            r@ == hex_digits(self.0 as nat, 32),
    {
        hex_string(self.0, 32)
    }

    /// Returns the bits corresponding to the hash of the source shader
    pub fn source_hash(self) -> (r: u64)
        ensures
            r == self.0 / 0x1_0000_0000_0000_0000u128,
    {
        let v = self.0;
        let r = (v >> 64u128) as u64;
        assert(r == v / 0x1_0000_0000_0000_0000u128) by (bit_vector)
            requires
                r == (v >> 64u128) as u64,
        ;
        r
    }

    /// Returns the bits corresponding to the hash of the used keywords
    pub fn keyword_hash(self) -> (r: u64)
        ensures
            r == self.0 % 0x1_0000_0000_0000_0000u128,
    {
        let v = self.0;
        let r = v as u64;
        assert(r == v % 0x1_0000_0000_0000_0000u128) by (bit_vector)
            requires
                r == v as u64,
        ;
        r
    }
}

/// Variant IDs order by their source hash first, and by their keyword hash between
/// variants of one source shader
pub proof fn lemma_variant_id_order(s1: u64, k1: u64, s2: u64, k2: u64)
    ensures
        variant_bits(s1, k1) < variant_bits(s2, k2) <==> (s1 < s2 || (s1 == s2 && k1 < k2)),
        variant_bits(s1, k1) == variant_bits(s2, k2) <==> (s1 == s2 && k1 == k2),
{
    assert(variant_bits(s1, k1) == s1 as int * 0x1_0000_0000_0000_0000int + k1 as int) by (bit_vector);
    assert(variant_bits(s2, k2) == s2 as int * 0x1_0000_0000_0000_0000int + k2 as int) by (bit_vector);
    if s1 < s2 {
        assert(s1 as int * 0x1_0000_0000_0000_0000int + 0x1_0000_0000_0000_0000int <= s2 as int * 0x1_0000_0000_0000_0000int)
            by (nonlinear_arith)
            requires
                s1 < s2,
        ;
    } else if s2 < s1 {
        assert(s2 as int * 0x1_0000_0000_0000_0000int + 0x1_0000_0000_0000_0000int <= s1 as int * 0x1_0000_0000_0000_0000int)
            by (nonlinear_arith)
            requires
                s2 < s1,
        ;
    }
}

/// Splitting a variant ID gives back the two hashes it was built from
pub proof fn lemma_variant_id_roundtrip(source_shader_hash: u64, keyword_hash: u64)
    ensures
        variant_bits(source_shader_hash, keyword_hash) / 0x1_0000_0000_0000_0000u128
            == source_shader_hash,
        variant_bits(source_shader_hash, keyword_hash) % 0x1_0000_0000_0000_0000u128
            == keyword_hash,
{
    assert(((((source_shader_hash as u128) << 64u128) | (keyword_hash as u128))
        / 0x1_0000_0000_0000_0000u128) == source_shader_hash) by (bit_vector);
    assert(((((source_shader_hash as u128) << 64u128) | (keyword_hash as u128))
        % 0x1_0000_0000_0000_0000u128) == keyword_hash) by (bit_vector);
}

} // verus!
