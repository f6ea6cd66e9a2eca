//! Percent-encoded key/value parameter strings, as they appear in URI query
//! strings and fragments: a codec from byte-level keys and values to the
//! `k=v&k=v` wire shape and back.
//!
//! Keys and values are treated as raw byte strings; bytes outside the
//! unreserved set travel as `%XX` escapes, so the wire form is always ASCII.

use vstd::prelude::*;

verus! {

/// The ASCII code of the hex digit for `n` (uppercase), for `n < 16`.
pub open spec fn hex_char(n: u8) -> u8 {
    if n < 10 {
        (48 + n) as u8
    } else {
        (55 + n) as u8
    }
}

/// Bytes that travel unescaped: ASCII letters, digits, `-`, `_`, `.`, `~`.
pub open spec fn is_safe_byte(b: u8) -> bool {
    (48 <= b && b <= 57) || (65 <= b && b <= 90) || (97 <= b && b <= 122) || b == 45 || b == 95
        || b == 46 || b == 126
}

/// The encoding of one byte: itself when safe, else `%` and two hex digits.
pub open spec fn enc_byte(b: u8) -> Seq<u8> {
    if is_safe_byte(b) {
        seq![b]
    } else {
        seq![37u8, hex_char(b / 16), hex_char(b % 16)]
    }
}

/// The encoding of a byte string.
pub open spec fn enc_bytes(bs: Seq<u8>) -> Seq<u8>
    decreases bs.len(),
{
    if bs.len() == 0 {
        Seq::empty()
    } else {
        enc_bytes(bs.drop_last()) + enc_byte(bs.last())
    }
}

/// The encoding of one `key=value` pair.
pub open spec fn enc_pair(p: (Seq<u8>, Seq<u8>)) -> Seq<u8> {
    enc_bytes(p.0) + seq![61u8] + enc_bytes(p.1)
}

/// The encoding of a pair list, joined with `&`.
pub open spec fn enc_pairs(ps: Seq<(Seq<u8>, Seq<u8>)>) -> Seq<u8>
    decreases ps.len(),
{
    if ps.len() == 0 {
        Seq::empty()
    } else if ps.len() == 1 {
        enc_pair(ps[0])
    } else {
        enc_pairs(ps.drop_last()) + seq![38u8] + enc_pair(ps.last())
    }
}

/// The byte strings of a pair list of vectors.
pub open spec fn pairs_view(ps: Seq<(Vec<u8>, Vec<u8>)>) -> Seq<(Seq<u8>, Seq<u8>)> {
    ps.map_values(|p: (Vec<u8>, Vec<u8>)| (p.0@, p.1@))
}

/// The value of an ASCII hex digit, or `None` for any other byte.
pub open spec fn hex_val(b: u8) -> Option<u8> {
    if 48 <= b && b <= 57 {
        Some((b - 48) as u8)
    } else if 65 <= b && b <= 70 {
        Some((b - 55) as u8)
    } else if 97 <= b && b <= 102 {
        Some((b - 87) as u8)
    } else {
        None
    }
}

/// The decoding of a percent-encoded byte string: `%XX` escapes become their
/// byte, `+` becomes a space, and any other byte stands for itself; `None`
/// when a `%` is not followed by two hex digits.
pub open spec fn dec_bytes(s: Seq<u8>) -> Option<Seq<u8>>
    decreases s.len(),
{
    if s.len() == 0 {
        Some(Seq::empty())
    } else if s[0] == 37 {
        if s.len() >= 3 && hex_val(s[1]) is Some && hex_val(s[2]) is Some {
            match dec_bytes(s.skip(3)) {
                Some(t) => Some(
                    seq![((hex_val(s[1])->Some_0) * 16 + (hex_val(s[2])->Some_0)) as u8] + t,
                ),
                None => None,
            }
        } else {
            None
        }
    } else if s[0] == 43 {
        match dec_bytes(s.skip(1)) {
            Some(t) => Some(seq![32u8] + t),
            None => None,
        }
    } else {
        match dec_bytes(s.skip(1)) {
            Some(t) => Some(seq![s[0]] + t),
            None => None,
        }
    }
}

/// The position of the first occurrence of `b` in `s`.
pub open spec fn find_byte(s: Seq<u8>, b: u8) -> Option<int>
    decreases s.len(),
{
    if s.len() == 0 {
        None
    } else if s[0] == b {
        Some(0)
    } else {
        match find_byte(s.drop_first(), b) {
            Some(i) => Some(i + 1),
            None => None,
        }
    }
}

/// A found position always lies inside the string, on an occurrence of the
/// byte, with none before it.
proof fn lemma_find_byte_range(s: Seq<u8>, b: u8)
    ensures
        find_byte(s, b) matches Some(i) ==> 0 <= i < s.len() && s[i] == b && (forall|k: int|
            0 <= k < i ==> s[k] != b),
        find_byte(s, b) is None ==> forall|k: int| 0 <= k < s.len() ==> s[k] != b,
    decreases s.len(),
{
    if s.len() > 0 && s[0] != b {
        lemma_find_byte_range(s.drop_first(), b);
        assert(forall|k: int| 1 <= k < s.len() ==> s[k] == s.drop_first()[k - 1]);
    }
}

/// The decoding of one `key=value` chunk; a chunk without `=` is a key with
/// an empty value.
pub open spec fn dec_component(s: Seq<u8>) -> Option<(Seq<u8>, Seq<u8>)> {
    let kraw = match find_byte(s, 61) {
        Some(i) => s.take(i),
        None => s,
    };
    let vraw = match find_byte(s, 61) {
        Some(i) => s.skip(i + 1),
        None => Seq::empty(),
    };
    match (dec_bytes(kraw), dec_bytes(vraw)) {
        (Some(k), Some(v)) => Some((k, v)),
        _ => None,
    }
}

/// The decoding of a non-empty `&`-joined pair string.
pub open spec fn parse_pairs_ne(s: Seq<u8>) -> Option<Seq<(Seq<u8>, Seq<u8>)>>
    decreases s.len(),
    via parse_pairs_ne_decreases
{
    match find_byte(s, 38) {
        Some(i) => match (dec_component(s.take(i)), parse_pairs_ne(s.skip(i + 1))) {
            (Some(p), Some(rest)) => Some(seq![p] + rest),
            _ => None,
        },
        None => match dec_component(s) {
            Some(p) => Some(seq![p]),
            None => None,
        },
    }
}

#[via_fn]
proof fn parse_pairs_ne_decreases(s: Seq<u8>) {
    lemma_find_byte_range(s, 38);
}

/// The decoding of a `&`-joined pair string; the empty string holds no pairs.
pub open spec fn parse_pairs(s: Seq<u8>) -> Option<Seq<(Seq<u8>, Seq<u8>)>> {
    if s.len() == 0 {
        Some(Seq::empty())
    } else {
        parse_pairs_ne(s)
    }
}

/// Append the encoding of `bs` to `out`.
pub fn encode_bytes_append(out: &mut Vec<u8>, bs: &Vec<u8>)
    ensures
        final(out)@ == old(out)@ + enc_bytes(bs@),
{
    let n = bs.len();
    let mut i: usize = 0;
    while i < n
        invariant
            n == bs@.len(),
            i <= n,
            out@ == old(out)@ + enc_bytes(bs@.take(i as int)),
        decreases n - i,
    {
        let b = bs[i];
        proof {
            assert(bs@.take(i + 1).drop_last() =~= bs@.take(i as int));
            assert(bs@.take(i + 1).last() == bs@[i as int]);
        }
        let safe = (48 <= b && b <= 57) || (65 <= b && b <= 90) || (97 <= b && b <= 122) || b == 45
            || b == 95 || b == 46 || b == 126;
        if safe {
            out.push(b);
        } else {
            let hi = b / 16;
            let lo = b % 16;
            out.push(37);
            out.push(if hi < 10 { 48 + hi } else { 55 + hi });
            out.push(if lo < 10 { 48 + lo } else { 55 + lo });
        }
        proof {
            assert(out@ =~= old(out)@ + enc_bytes(bs@.take(i + 1)));
        }
        i = i + 1;
    }
    proof {
        assert(bs@.take(n as int) =~= bs@);
    }
}

/// Serialize a pair list to its `k=v&k=v` wire form.
pub fn serialize_pairs(ps: &Vec<(Vec<u8>, Vec<u8>)>) -> (r: Vec<u8>)
    ensures
        r@ == enc_pairs(pairs_view(ps@)),
{
    let mut out: Vec<u8> = Vec::new();
    let n = ps.len();
    let mut i: usize = 0;
    while i < n
        invariant
            n == ps@.len(),
            i <= n,
            out@ == enc_pairs(pairs_view(ps@).take(i as int)),
        decreases n - i,
    {
        proof {
            assert(pairs_view(ps@).take(i + 1).drop_last() =~= pairs_view(ps@).take(i as int));
            assert(pairs_view(ps@).take(i + 1).last() == pairs_view(ps@)[i as int]);
            assert(pairs_view(ps@)[i as int] == (ps@[i as int].0@, ps@[i as int].1@));
        }
        if i > 0 {
            out.push(38);
        }
        encode_bytes_append(&mut out, &ps[i].0);
        out.push(61);
        encode_bytes_append(&mut out, &ps[i].1);
        proof {
            assert(out@ =~= enc_pairs(pairs_view(ps@).take(i + 1)));
        }
        i = i + 1;
    }
    proof {
        assert(pairs_view(ps@).take(n as int) =~= pairs_view(ps@));
    }
    out
}

/// The value of an ASCII hex digit.
pub fn hex_value(b: u8) -> (r: Option<u8>)
    ensures
        r == hex_val(b),
{
    if 48 <= b && b <= 57 {
        Some(b - 48)
    } else if 65 <= b && b <= 70 {
        Some(b - 55)
    } else if 97 <= b && b <= 102 {
        Some(b - 87)
    } else {
        None
    }
}

/// Percent-decode the bytes of `s` between `from` and `to`.
pub fn decode_range(s: &Vec<u8>, from: usize, to: usize) -> (r: Option<Vec<u8>>)
    requires
        from <= to <= s@.len(),
    ensures
        match r {
            Some(out) => dec_bytes(s@.subrange(from as int, to as int)) == Some(out@),
            None => dec_bytes(s@.subrange(from as int, to as int)) is None,
        },
{
    let ghost g = s@.subrange(from as int, to as int);
    let mut out: Vec<u8> = Vec::new();
    let mut j: usize = from;
    proof {
        assert(g.skip(0) =~= g);
    }
    while j < to
        invariant
            from <= j <= to <= s@.len(),
            g == s@.subrange(from as int, to as int),
            dec_bytes(g) == match dec_bytes(g.skip(j - from)) {
                Some(t) => Some(out@ + t),
                None => None::<Seq<u8>>,
            },
        decreases to - j,
    {
        let b = s[j];
        let ghost old_out = out@;
        proof {
            assert(g.skip(j - from)[0] == g[j - from]);
            assert(g[j - from] == s@[j as int]);
        }
        if b == 37 {
            if to - j > 2 {
                let h1 = hex_value(s[j + 1]);
                let h2 = hex_value(s[j + 2]);
                proof {
                    assert(g.skip(j - from).len() >= 3);
                    assert(g.skip(j - from)[1] == s@[j + 1]);
                    assert(g.skip(j - from)[2] == s@[j + 2]);
                    assert(g.skip(j - from).skip(3) =~= g.skip(j + 3 - from));
                }
                match (h1, h2) {
                    (Some(a), Some(c)) => {
                        out.push(a * 16 + c);
                        proof {
                            let rest = dec_bytes(g.skip(j + 3 - from));
                            if rest is Some {
                                let t = rest->Some_0;
                                assert(out@ + t =~= old_out + (seq![(a * 16 + c) as u8] + t));
                            }
                        }
                        j = j + 3;
                    },
                    _ => {
                        return None;
                    },
                }
            } else {
                proof {
                    if g.skip(j - from).len() >= 3 {
                        assert(j + 2 < to);
                    }
                }
                return None;
            }
        } else if b == 43 {
            out.push(32);
            proof {
                assert(g.skip(j - from).skip(1) =~= g.skip(j + 1 - from));
                let rest = dec_bytes(g.skip(j + 1 - from));
                if rest is Some {
                    let t = rest->Some_0;
                    assert(out@ + t =~= old_out + (seq![32u8] + t));
                }
            }
            j = j + 1;
        } else {
            out.push(b);
            proof {
                assert(g.skip(j - from).skip(1) =~= g.skip(j + 1 - from));
                let rest = dec_bytes(g.skip(j + 1 - from));
                if rest is Some {
                    let t = rest->Some_0;
                    assert(out@ + t =~= old_out + (seq![b] + t));
                }
            }
            j = j + 1;
        }
    }
    proof {
        assert(g.skip(to - from) =~= Seq::<u8>::empty());
        assert(dec_bytes(g) == Some(out@ + Seq::<u8>::empty()));
        assert(out@ + Seq::<u8>::empty() =~= out@);
    }
    Some(out)
}

/// Find the first occurrence of `b` in `s` between `from` and `to`.
pub fn find_in_range(s: &Vec<u8>, from: usize, to: usize, b: u8) -> (r: Option<usize>)
    requires
        from <= to <= s@.len(),
    ensures
        match r {
            Some(p) => from <= p < to && find_byte(s@.subrange(from as int, to as int), b) == Some(
                p - from,
            ),
            None => find_byte(s@.subrange(from as int, to as int), b) is None,
        },
{
    let ghost g = s@.subrange(from as int, to as int);
    let mut j: usize = from;
    proof {
        assert(g.skip(0) =~= g);
    }
    while j < to
        invariant
            from <= j <= to <= s@.len(),
            g == s@.subrange(from as int, to as int),
            find_byte(g, b) == match find_byte(g.skip(j - from), b) {
                Some(i) => Some(i + (j - from)),
                None => None::<int>,
            },
        decreases to - j,
    {
        proof {
            assert(g.skip(j - from)[0] == s@[j as int]);
            assert(g.skip(j - from).drop_first() =~= g.skip(j + 1 - from));
        }
        if s[j] == b {
            return Some(j);
        }
        j = j + 1;
    }
    proof {
        assert(g.skip(to - from) =~= Seq::<u8>::empty());
    }
    None
}

/// Decode one `key=value` chunk of `s` between `from` and `to`.
pub fn parse_chunk(s: &Vec<u8>, from: usize, to: usize) -> (r: Option<(Vec<u8>, Vec<u8>)>)
    requires
        from <= to <= s@.len(),
    ensures
        match r {
            Some(p) => dec_component(s@.subrange(from as int, to as int)) == Some((p.0@, p.1@)),
            None => dec_component(s@.subrange(from as int, to as int)) is None,
        },
{
    let ghost g = s@.subrange(from as int, to as int);
    let eq = find_in_range(s, from, to, 61);
    match eq {
        Some(p) => {
            proof {
                assert(g.take(p - from) =~= s@.subrange(from as int, p as int));
                assert(g.skip(p - from + 1) =~= s@.subrange(p + 1, to as int));
            }
            let k = decode_range(s, from, p);
            let v = decode_range(s, p + 1, to);
            match (k, v) {
                (Some(k), Some(v)) => Some((k, v)),
                _ => None,
            }
        },
        None => {
            proof {
                assert(dec_bytes(Seq::<u8>::empty()) == Some(Seq::<u8>::empty()));
            }
            let k = decode_range(s, from, to);
            match k {
                Some(k) => Some((k, Vec::new())),
                None => None,
            }
        },
    }
}

/// Parse a `&`-joined pair string into its decoded pairs; `None` when any
/// escape is malformed.
pub fn parse_query(s: &Vec<u8>) -> (r: Option<Vec<(Vec<u8>, Vec<u8>)>>)
    ensures
        match r {
            Some(ps) => parse_pairs(s@) == Some(pairs_view(ps@)),
            None => parse_pairs(s@) is None,
        },
{
    let n = s.len();
    let mut out: Vec<(Vec<u8>, Vec<u8>)> = Vec::new();
    if n == 0 {
        proof {
            assert(pairs_view(out@) =~= Seq::<(Seq<u8>, Seq<u8>)>::empty());
        }
        return Some(out);
    }
    let mut pos: usize = 0;
    proof {
        assert(s@.skip(0) =~= s@);
    }
    loop
        invariant
            pos <= n,
            n == s@.len(),
            n > 0,
            parse_pairs_ne(s@) == match parse_pairs_ne(s@.skip(pos as int)) {
                Some(rest) => Some(pairs_view(out@) + rest),
                None => None::<Seq<(Seq<u8>, Seq<u8>)>>,
            },
        decreases n - pos,
    {
        proof {
            assert(s@.skip(pos as int) =~= s@.subrange(pos as int, n as int));
        }
        let amp = find_in_range(s, pos, n, 38);
        match amp {
            Some(a) => {
                proof {
                    assert(s@.skip(pos as int).take(a - pos) =~= s@.subrange(
                        pos as int,
                        a as int,
                    ));
                    assert(s@.skip(pos as int).skip(a - pos + 1) =~= s@.skip(a + 1));
                }
                let p = parse_chunk(s, pos, a);
                match p {
                    Some(p) => {
                        let ghost old_out = out@;
                        out.push(p);
                        proof {
                            assert(pairs_view(out@) =~= pairs_view(old_out) + seq![
                                (p.0@, p.1@),
                            ]);
                            let rest = parse_pairs_ne(s@.skip(a + 1));
                            if rest is Some {
                                let t = rest->Some_0;
                                assert(pairs_view(out@) + t =~= pairs_view(old_out) + (seq![
                                    (p.0@, p.1@),
                                ] + t));
                            }
                        }
                        pos = a + 1;
                    },
                    None => {
                        return None;
                    },
                }
            },
            None => {
                let p = parse_chunk(s, pos, n);
                match p {
                    Some(p) => {
                        let ghost old_out = out@;
                        out.push(p);
                        proof {
                            assert(pairs_view(out@) =~= pairs_view(old_out) + seq![
                                (p.0@, p.1@),
                            ]);
                        }
                        return Some(out);
                    },
                    None => {
                        return None;
                    },
                }
            },
        }
    }
}

/// Decoding inverts encoding for a single byte string.
proof fn lemma_decode_encode_byte(b: u8)
    ensures
        dec_bytes(enc_byte(b)) == Some(seq![b]),
{
    assert(dec_bytes(Seq::<u8>::empty()) == Some(Seq::<u8>::empty()));
    if is_safe_byte(b) {
        assert(enc_byte(b).skip(1) =~= Seq::<u8>::empty());
        assert(seq![b] + Seq::<u8>::empty() =~= seq![b]);
    } else {
        let e = enc_byte(b);
        assert(e[0] == 37);
        assert(hex_val(e[1]) == Some((b / 16) as u8)) by {
            assert(e[1] == hex_char(b / 16));
        }
        assert(hex_val(e[2]) == Some((b % 16) as u8)) by {
            assert(e[2] == hex_char(b % 16));
        }
        assert(e.skip(3) =~= Seq::<u8>::empty());
        assert((b / 16) * 16 + (b % 16) == b) by {
            assert(b == 16 * (b / 16) + b % 16) by (nonlinear_arith);
        }
        assert(seq![b] + Seq::<u8>::empty() =~= seq![b]);
    }
}

/// Appending to an encoded string decodes to the concatenation of the
/// decodings, provided both sides decode.
proof fn lemma_dec_append(a: Seq<u8>, t: Seq<u8>, da: Seq<u8>, dt: Seq<u8>)
    requires
        dec_bytes(a) == Some(da),
        dec_bytes(t) == Some(dt),
    ensures
        dec_bytes(a + t) == Some(da + dt),
    decreases a.len(),
{
    if a.len() == 0 {
        assert(a + t =~= t);
        assert(da =~= Seq::<u8>::empty());
        assert(da + dt =~= dt);
    } else if a[0] == 37 {
        assert((a + t)[0] == 37);
        assert((a + t).len() >= 3);
        assert((a + t)[1] == a[1]);
        assert((a + t)[2] == a[2]);
        assert((a + t).skip(3) =~= a.skip(3) + t);
        let da1 = dec_bytes(a.skip(3))->Some_0;
        lemma_dec_append(a.skip(3), t, da1, dt);
        let h = ((hex_val(a[1])->Some_0) * 16 + (hex_val(a[2])->Some_0)) as u8;
        assert(da == seq![h] + da1);
        assert(seq![h] + (da1 + dt) =~= (seq![h] + da1) + dt);
    } else {
        assert((a + t)[0] == a[0]);
        assert((a + t).skip(1) =~= a.skip(1) + t);
        let da1 = dec_bytes(a.skip(1))->Some_0;
        lemma_dec_append(a.skip(1), t, da1, dt);
        let h: u8 = if a[0] == 43 {
            32
        } else {
            a[0]
        };
        assert(da == seq![h] + da1);
        assert(seq![h] + (da1 + dt) =~= (seq![h] + da1) + dt);
    }
}

/// Law: decoding inverts encoding — every byte string comes back from its
/// percent-encoded form unchanged.
pub proof fn lemma_decode_encode(bs: Seq<u8>)
    ensures
        dec_bytes(enc_bytes(bs)) == Some(bs),
    decreases bs.len(),
{
    if bs.len() == 0 {
    } else {
        lemma_decode_encode(bs.drop_last());
        lemma_decode_encode_byte(bs.last());
        lemma_dec_append(
            enc_bytes(bs.drop_last()),
            enc_byte(bs.last()),
            bs.drop_last(),
            seq![bs.last()],
        );
        assert(bs.drop_last() + seq![bs.last()] =~= bs);
    }
}

} // verus!
