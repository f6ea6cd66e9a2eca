//! Small string helpers: ASCII byte strings to `String`, and decimal
//! rendering of integers.

use vstd::prelude::*;

verus! {

/// The characters of an ASCII byte string, one per byte.
pub open spec fn ascii_chars(bs: Seq<u8>) -> Seq<char> {
    bs.map_values(|b: u8| b as char)
}

/// Relies on `String::from_utf8`: ASCII bytes are valid UTF-8 and decode to
/// one character per byte.
#[verifier::external_body]
pub fn ascii_to_string(v: Vec<u8>) -> (r: String)
    requires
        forall|i: int| 0 <= i < v@.len() ==> v@[i] < 128,
    ensures
        r@ == ascii_chars(v@),
{
    String::from_utf8(v).unwrap_or_default()
}

/// The decimal digits of `n`, as ASCII bytes, most significant first.
pub open spec fn dec_bytes_of(n: nat) -> Seq<u8>
    decreases n,
{
    if n < 10 {
        seq![(48 + n) as u8]
    } else {
        dec_bytes_of(n / 10).push((48 + n % 10) as u8)
    }
}

/// Decimal digits are ASCII.
pub proof fn lemma_dec_bytes_ascii(n: nat)
    ensures
        forall|i: int| 0 <= i < dec_bytes_of(n).len() ==> dec_bytes_of(n)[i] < 128,
    decreases n,
{
    if n >= 10 {
        lemma_dec_bytes_ascii(n / 10);
        let d = dec_bytes_of(n);
        let h = dec_bytes_of(n / 10);
        assert(d == h.push((48 + n % 10) as u8));
        assert(forall|i: int| 0 <= i < h.len() ==> d[i] == h[i]);
        assert(d[h.len() as int] == (48 + n % 10) as u8);
    }
}

/// Append the decimal digits of `n` to `out`.
pub fn push_dec(out: &mut Vec<u8>, n: u128)
    ensures
        final(out)@ == old(out)@ + dec_bytes_of(n as nat),
    decreases n,
{
    if n >= 10 {
        push_dec(out, n / 10);
    }
    out.push(48 + (n % 10) as u8);
    proof {
        if n < 10 {
            assert(old(out)@ + dec_bytes_of(n as nat) =~= old(out)@.push((48 + n as nat) as u8));
        } else {
            assert(old(out)@ + dec_bytes_of(n as nat) =~= (old(out)@ + dec_bytes_of(
                n as nat / 10,
            )).push((48 + n as nat % 10) as u8));
        }
    }
}

/// The decimal rendering of `n`.
pub fn uint_to_dec(n: u128) -> (r: String)
    ensures
        r@ == ascii_chars(dec_bytes_of(n as nat)),
{
    let mut out: Vec<u8> = Vec::new();
    push_dec(&mut out, n);
    proof {
        lemma_dec_bytes_ascii(n as nat);
        assert(out@ =~= dec_bytes_of(n as nat));
    }
    ascii_to_string(out)
}

} // verus!
