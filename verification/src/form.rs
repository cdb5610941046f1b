//! Parsing of `application/x-www-form-urlencoded` request bodies.
//!
//! A body is a sequence of `&`-separated segments; empty segments are
//! skipped. Each segment is split at its first `=` into a key and a value (a
//! segment without `=` has an empty value), and both sides are then
//! percent-decoded: `+` stands for a space, `%xy` with two hex digits stands
//! for one byte, and a `%` not followed by two hex digits makes the whole
//! body malformed. When a key occurs more than once, the last occurrence
//! wins.

use vstd::prelude::*;

verus! {

pub const AMPERSAND: u8 = 38;

pub const EQUALS_SIGN: u8 = 61;

pub const PLUS_SIGN: u8 = 43;

pub const PERCENT_SIGN: u8 = 37;

pub const SPACE: u8 = 32;

pub open spec fn is_hex_digit(b: u8) -> bool {
    (48 <= b <= 57) || (65 <= b <= 70) || (97 <= b <= 102)
}

pub open spec fn hex_value(b: u8) -> u8
    recommends
        is_hex_digit(b),
{
    if 48 <= b <= 57 {
        (b - 48) as u8
    } else if 65 <= b <= 70 {
        (b - 55) as u8
    } else {
        (b - 87) as u8
    }
}

/// Percent-decoding of the suffix of `s` that starts at `i`; `None` when a
/// `%` is not followed by two hex digits.
pub open spec fn decoded_from(s: Seq<u8>, i: int) -> Option<Seq<u8>>
    decreases s.len() - i,
    when 0 <= i <= s.len()
{
    if i == s.len() {
        Some(Seq::<u8>::empty())
    } else if s[i] == PLUS_SIGN {
        match decoded_from(s, i + 1) {
            Some(rest) => Some(seq![SPACE] + rest),
            None => None,
        }
    } else if s[i] == PERCENT_SIGN {
        if i + 3 <= s.len() && is_hex_digit(s[i + 1]) && is_hex_digit(s[i + 2]) {
            match decoded_from(s, i + 3) {
                Some(rest) => Some(seq![(16 * hex_value(s[i + 1]) + hex_value(s[i + 2])) as u8] + rest),
                None => None,
            }
        } else {
            None
        }
    } else {
        match decoded_from(s, i + 1) {
            Some(rest) => Some(seq![s[i]] + rest),
            None => None,
        }
    }
}

pub open spec fn decoded(s: Seq<u8>) -> Option<Seq<u8>> {
    decoded_from(s, 0)
}

pub open spec fn opt_prepend(prefix: Seq<u8>, tail: Option<Seq<u8>>) -> Option<Seq<u8>> {
    match tail {
        Some(rest) => Some(prefix + rest),
        None => None,
    }
}

proof fn lemma_opt_prepend_assoc(a: Seq<u8>, b: Seq<u8>, tail: Option<Seq<u8>>)
    ensures
        opt_prepend(a, opt_prepend(b, tail)) == opt_prepend(a + b, tail),
{
    match tail {
        Some(rest) => {
            assert(a + (b + rest) =~= (a + b) + rest);
        },
        None => {},
    }
}

/// Percent-decodes `s`: `+` becomes a space, `%xy` one byte. `None` exactly
/// when some `%` is not followed by two hex digits.
pub fn percent_decode(s: &Vec<u8>) -> (r: Option<Vec<u8>>)
    ensures
        r is Some <==> decoded(s@) is Some,
        r matches Some(v) ==> decoded(s@) == Some(v@),
{
    let mut out: Vec<u8> = Vec::new();
    let mut i: usize = 0;
    while i < s.len()
        invariant
            0 <= i <= s.len(),
            decoded_from(s@, 0) == opt_prepend(out@, decoded_from(s@, i as int)),
        decreases s.len() - i,
    {
        let b = s[i];
        if b == PLUS_SIGN {
            proof {
                lemma_opt_prepend_assoc(out@, seq![SPACE], decoded_from(s@, i + 1));
                assert(out@ + seq![SPACE] =~= out@.push(SPACE));
            }
            out.push(SPACE);
            i = i + 1;
        } else if b == PERCENT_SIGN {
            if s.len() - i >= 3 {
                match (hex_digit_value(s[i + 1]), hex_digit_value(s[i + 2])) {
                    (Some(hi), Some(lo)) => {
                        let byte: u8 = 16 * hi + lo;
                        proof {
                            lemma_opt_prepend_assoc(out@, seq![byte], decoded_from(s@, i + 3));
                            assert(out@ + seq![byte] =~= out@.push(byte));
                        }
                        out.push(byte);
                        i = i + 3;
                    },
                    _ => {
                        assert(decoded_from(s@, i as int) is None);
                        return None;
                    },
                }
            } else {
                assert(decoded_from(s@, i as int) is None);
                return None;
            }
        } else {
            proof {
                lemma_opt_prepend_assoc(out@, seq![b], decoded_from(s@, i + 1));
                assert(out@ + seq![b] =~= out@.push(b));
            }
            out.push(b);
            i = i + 1;
        }
    }
    proof {
        assert(out@ + Seq::<u8>::empty() =~= out@);
    }
    Some(out)
}

/// The value of one hex digit, or `None` for any other byte.
pub fn hex_digit_value(b: u8) -> (r: Option<u8>)
    ensures
        r is Some <==> is_hex_digit(b),
        r matches Some(v) ==> v == hex_value(b) && v < 16,
{
    if 48 <= b && b <= 57 {
        Some(b - 48)
    } else if 65 <= b && b <= 70 {
        Some(b - 55)
    } else if 97 <= b && b <= 102 {
        Some(b - 87)
    } else {
        None
    }
}

/// The `&`-separated segments of the suffix of `s` starting at `i`, with
/// `cur` the part of the current segment read so far; empty segments are
/// dropped.
pub open spec fn split_raw(s: Seq<u8>, i: int, cur: Seq<u8>) -> Seq<Seq<u8>>
    decreases s.len() - i,
    when 0 <= i <= s.len()
{
    if i == s.len() {
        if cur.len() == 0 {
            Seq::<Seq<u8>>::empty()
        } else {
            seq![cur]
        }
    } else if s[i] == AMPERSAND {
        if cur.len() == 0 {
            split_raw(s, i + 1, Seq::<u8>::empty())
        } else {
            seq![cur] + split_raw(s, i + 1, Seq::<u8>::empty())
        }
    } else {
        split_raw(s, i + 1, cur.push(s[i]))
    }
}

pub open spec fn segments_of(s: Seq<u8>) -> Seq<Seq<u8>> {
    split_raw(s, 0, Seq::<u8>::empty())
}

/// Splits a body at `&`, dropping empty segments.
pub fn split_segments(s: &Vec<u8>) -> (r: Vec<Vec<u8>>)
    ensures
        r.deep_view() == segments_of(s@),
{
    let mut segs: Vec<Vec<u8>> = Vec::new();
    let mut cur: Vec<u8> = Vec::new();
    let mut i: usize = 0;
    while i < s.len()
        invariant
            0 <= i <= s.len(),
            segments_of(s@) == segs.deep_view() + split_raw(s@, i as int, cur@),
        decreases s.len() - i,
    {
        let b = s[i];
        if b == AMPERSAND {
            if cur.len() > 0 {
                let ghost old_segs = segs.deep_view();
                let ghost cv = cur@;
                segs.push(cur);
                cur = Vec::new();
                proof {
                    assert(segs.deep_view() =~~= old_segs.push(cv));
                    assert(old_segs + (seq![cv] + split_raw(s@, i + 1, Seq::<u8>::empty())) =~=
                        old_segs.push(cv) + split_raw(s@, i + 1, Seq::<u8>::empty()));
                }
            } else {
                proof {
                    assert(cur@ =~= Seq::<u8>::empty());
                }
            }
        } else {
            cur.push(b);
        }
        i = i + 1;
    }
    if cur.len() > 0 {
        let ghost old_segs = segs.deep_view();
        let ghost cv = cur@;
        segs.push(cur);
        proof {
            assert(segs.deep_view() =~~= old_segs.push(cv));
            assert(old_segs + seq![cv] =~= old_segs.push(cv));
        }
    } else {
        proof {
            assert(segs.deep_view() + Seq::<Seq<u8>>::empty() =~= segs.deep_view());
        }
    }
    segs
}

/// Index of the first `=` in `s` at or after `i`, or `s.len()` when there is
/// none.
pub open spec fn first_equals_from(s: Seq<u8>, i: int) -> int
    decreases s.len() - i,
    when 0 <= i <= s.len()
{
    if i == s.len() {
        s.len() as int
    } else if s[i] == EQUALS_SIGN {
        i
    } else {
        first_equals_from(s, i + 1)
    }
}

/// The key part of one raw segment: everything before the first `=`.
pub open spec fn raw_key(seg: Seq<u8>) -> Seq<u8> {
    seg.subrange(0, first_equals_from(seg, 0))
}

/// The value part of one raw segment: everything after the first `=`, empty
/// when the segment has no `=`.
pub open spec fn raw_value(seg: Seq<u8>) -> Seq<u8> {
    if first_equals_from(seg, 0) < seg.len() {
        seg.subrange(first_equals_from(seg, 0) + 1, seg.len() as int)
    } else {
        Seq::<u8>::empty()
    }
}

/// Index of the first `=` in `seg`, or its length when there is none.
pub fn find_equals(seg: &Vec<u8>) -> (r: usize)
    ensures
        r == first_equals_from(seg@, 0),
        r <= seg@.len(),
        r < seg@.len() ==> seg@[r as int] == EQUALS_SIGN,
{
    let mut i: usize = 0;
    while i < seg.len()
        invariant
            0 <= i <= seg.len(),
            first_equals_from(seg@, 0) == first_equals_from(seg@, i as int),
        decreases seg.len() - i,
    {
        if seg[i] == EQUALS_SIGN {
            return i;
        }
        i = i + 1;
    }
    i
}

/// A copy of `s[lo..hi]`.
pub fn subvec(s: &Vec<u8>, lo: usize, hi: usize) -> (r: Vec<u8>)
    requires
        lo <= hi <= s@.len(),
    ensures
        r@ == s@.subrange(lo as int, hi as int),
{
    let mut out: Vec<u8> = Vec::new();
    let mut i: usize = lo;
    while i < hi
        invariant
            lo <= i <= hi <= s@.len(),
            out@ == s@.subrange(lo as int, i as int),
        decreases hi - i,
    {
        out.push(s[i]);
        proof {
            assert(s@.subrange(lo as int, i + 1) =~= s@.subrange(lo as int, i as int).push(
                s@[i as int],
            ));
        }
        i = i + 1;
    }
    out
}

/// One decoded key/value pair of a form body.
pub struct Pair {
    pub key: Vec<u8>,
    pub value: Vec<u8>,
}

impl View for Pair {
    type V = (Seq<u8>, Seq<u8>);

    open spec fn view(&self) -> (Seq<u8>, Seq<u8>) {
        (self.key@, self.value@)
    }
}

impl DeepView for Pair {
    type V = (Seq<u8>, Seq<u8>);

    open spec fn deep_view(&self) -> (Seq<u8>, Seq<u8>) {
        self@
    }
}

/// The decoded pairs of the raw segments from index `i` on; `None` when any
/// key or value fails to percent-decode.
pub open spec fn decoded_pairs_from(segs: Seq<Seq<u8>>, i: int) -> Option<Seq<(Seq<u8>, Seq<u8>)>>
    decreases segs.len() - i,
    when 0 <= i <= segs.len()
{
    if i == segs.len() {
        Some(Seq::<(Seq<u8>, Seq<u8>)>::empty())
    } else {
        match (decoded(raw_key(segs[i])), decoded(raw_value(segs[i])), decoded_pairs_from(
            segs,
            i + 1,
        )) {
            (Some(k), Some(v), Some(rest)) => Some(seq![(k, v)] + rest),
            _ => None,
        }
    }
}

/// The decoded key/value pairs of a whole body, `None` when it is malformed.
pub open spec fn form_pairs(s: Seq<u8>) -> Option<Seq<(Seq<u8>, Seq<u8>)>> {
    decoded_pairs_from(segments_of(s), 0)
}

/// Splits a body into pairs and percent-decodes each side; `None` exactly
/// when the body is malformed.
pub fn parse_pairs(body: &Vec<u8>) -> (r: Option<Vec<Pair>>)
    ensures
        r is Some <==> form_pairs(body@) is Some,
        r matches Some(ps) ==> form_pairs(body@) == Some(ps.deep_view()),
{
    let segs = split_segments(body);
    let ghost sv = segs.deep_view();
    let mut out: Vec<Pair> = Vec::new();
    let mut i: usize = 0;
    while i < segs.len()
        invariant
            0 <= i <= segs.len(),
            sv == segs.deep_view(),
            sv == segments_of(body@),
            sv.len() == segs@.len(),
            decoded_pairs_from(sv, 0) == (match decoded_pairs_from(sv, i as int) {
                Some(rest) => Some(out.deep_view() + rest),
                None => None::<Seq<(Seq<u8>, Seq<u8>)>>,
            }),
        decreases segs.len() - i,
    {
        let seg = &segs[i];
        proof {
            assert(sv[i as int] =~= seg@);
        }
        let p = find_equals(seg);
        let rk = subvec(seg, 0, p);
        let rv = if p < seg.len() {
            subvec(seg, p + 1, seg.len())
        } else {
            Vec::new()
        };
        proof {
            assert(rk@ =~= raw_key(sv[i as int]));
            assert(rv@ =~= raw_value(sv[i as int]));
        }
        let dk = percent_decode(&rk);
        let dv = percent_decode(&rv);
        match (dk, dv) {
            (Some(k), Some(v)) => {
                let ghost old_out = out.deep_view();
                let ghost kv = (k@, v@);
                out.push(Pair { key: k, value: v });
                proof {
                    assert(out.deep_view() =~~= old_out.push(kv));
                    match decoded_pairs_from(sv, i + 1) {
                        Some(rest) => {
                            assert(old_out + (seq![kv] + rest) =~= old_out.push(kv) + rest);
                        },
                        None => {},
                    }
                }
                i = i + 1;
            },
            _ => {
                assert(decoded_pairs_from(sv, i as int) is None);
                return None;
            },
        }
    }
    proof {
        assert(out.deep_view() + Seq::<(Seq<u8>, Seq<u8>)>::empty() =~= out.deep_view());
    }
    Some(out)
}

/// The value of the last pair whose key is `key`, or `None` when no pair has
/// that key.
pub open spec fn last_value(pairs: Seq<(Seq<u8>, Seq<u8>)>, key: Seq<u8>) -> Option<Seq<u8>>
    decreases pairs.len(),
{
    if pairs.len() == 0 {
        None
    } else if pairs[pairs.len() - 1].0 == key {
        Some(pairs[pairs.len() - 1].1)
    } else {
        last_value(pairs.drop_last(), key)
    }
}

/// Whether two byte vectors hold the same bytes.
pub fn bytes_eq(a: &Vec<u8>, b: &Vec<u8>) -> (r: bool)
    ensures
        r <==> a@ == b@,
{
    if a.len() != b.len() {
        return false;
    }
    let mut i: usize = 0;
    while i < a.len()
        invariant
            0 <= i <= a.len(),
            a@.len() == b@.len(),
            forall|k: int| 0 <= k < i ==> a@[k] == b@[k],
        decreases a.len() - i,
    {
        if a[i] != b[i] {
            return false;
        }
        i = i + 1;
    }
    proof {
        assert(a@ =~= b@);
    }
    true
}

/// Looks a key up among decoded pairs; when it occurs more than once, the
/// last occurrence wins.
pub fn lookup_last(pairs: &Vec<Pair>, key: &Vec<u8>) -> (r: Option<Vec<u8>>)
    ensures
        r is Some <==> last_value(pairs.deep_view(), key@) is Some,
        r matches Some(v) ==> last_value(pairs.deep_view(), key@) == Some(v@),
{
    let ghost pv = pairs.deep_view();
    let mut found: Option<Vec<u8>> = None;
    let mut i: usize = 0;
    while i < pairs.len()
        invariant
            0 <= i <= pairs.len(),
            pv == pairs.deep_view(),
            pv.len() == pairs@.len(),
            (found is Some) <==> (last_value(pv.subrange(0, i as int), key@) is Some),
            found matches Some(v) ==> last_value(pv.subrange(0, i as int), key@) == Some(v@),
        decreases pairs.len() - i,
    {
        proof {
            assert(pv[i as int] == (pairs@[i as int].key@, pairs@[i as int].value@));
        }
        if bytes_eq(&pairs[i].key, key) {
            found = Some(subvec(&pairs[i].value, 0, pairs[i].value.len()));
            proof {
                let taken = pv.subrange(0, i + 1);
                assert(taken[taken.len() - 1] == pv[i as int]);
                assert(pairs@[i as int].value@.subrange(0, pairs@[i as int].value@.len() as int)
                    =~= pairs@[i as int].value@);
            }
        } else {
            proof {
                let taken = pv.subrange(0, i + 1);
                assert(taken[taken.len() - 1] == pv[i as int]);
                assert(taken.drop_last() =~= pv.subrange(0, i as int));
            }
        }
        i = i + 1;
    }
    proof {
        assert(pv.subrange(0, pv.len() as int) =~= pv);
    }
    found
}

} // verus!
