//! Redirect/response dispatch: merge a response parameter bag into a
//! redirect target according to the resolved response mode.
//!
//! The merge never drops parameters already present on the target, new
//! parameters win on key collision, and `state` is carried verbatim.

use vstd::prelude::*;
use vstd::string::StrSliceExecFns;
use vstd::string::StringExecFns;
use vstd::utf8::encode_utf8;

use crate::response_mode::ResponseMode;
use crate::strutil::ascii_chars;
use crate::strutil::ascii_to_string;
use crate::url_parts::UrlParts;
use crate::urlencode::enc_byte;
use crate::urlencode::enc_bytes;
use crate::urlencode::enc_pair;
use crate::urlencode::enc_pairs;
use crate::urlencode::pairs_view;
use crate::urlencode::parse_pairs;
use crate::urlencode::parse_query;
use crate::urlencode::serialize_pairs;

verus! {

/// The bytes of the reserved `state` key.
pub open spec fn state_key() -> Seq<u8> {
    seq![115u8, 116u8, 97u8, 116u8, 101u8]
}

/// The keys of a pair list.
pub open spec fn keys_of(ps: Seq<(Seq<u8>, Seq<u8>)>) -> Set<Seq<u8>> {
    ps.map_values(|p: (Seq<u8>, Seq<u8>)| p.0).to_set()
}

/// Keys that override what the target already carries: the new parameters'
/// keys, and `state` when a state is delivered.
pub open spec fn reserved_keys(st: Option<Seq<u8>>, newp: Seq<(Seq<u8>, Seq<u8>)>) -> Set<
    Seq<u8>,
> {
    if st is Some {
        keys_of(newp).insert(state_key())
    } else {
        keys_of(newp)
    }
}

/// The `state` echo as a pair list: one pair, or none.
pub open spec fn state_pairs(st: Option<Seq<u8>>) -> Seq<(Seq<u8>, Seq<u8>)> {
    match st {
        Some(v) => seq![(state_key(), v)],
        None => Seq::<(Seq<u8>, Seq<u8>)>::empty(),
    }
}

/// The merged parameter bag: the target's own parameters except those a new
/// key overrides, then the `state` echo, then the new parameters.
pub open spec fn merged_pairs(
    existing: Seq<(Seq<u8>, Seq<u8>)>,
    st: Option<Seq<u8>>,
    newp: Seq<(Seq<u8>, Seq<u8>)>,
) -> Seq<(Seq<u8>, Seq<u8>)> {
    existing.filter(|p: (Seq<u8>, Seq<u8>)| !reserved_keys(st, newp).contains(p.0))
        + state_pairs(st) + newp
}

/// The byte strings of a list of string pairs.
pub open spec fn str_pairs_bytes(ps: Seq<(String, String)>) -> Seq<(Seq<u8>, Seq<u8>)> {
    ps.map_values(|p: (String, String)| (encode_utf8(p.0@), encode_utf8(p.1@)))
}

/// The byte string of an optional state.
pub open spec fn state_bytes(st: Option<&String>) -> Option<Seq<u8>> {
    match st {
        Some(s) => Some(encode_utf8(s@)),
        None => None,
    }
}

/// A response on its way back to the client.
pub enum ClientReply {
    /// An HTTP see-other redirect to this location.
    Redirect { location: String },
    /// An auto-submitting form posting these hidden fields to the target.
    FormPost { target: String, fields: Vec<(String, String)> },
}

/// The parameters already on the redirect target could not be parsed.
#[derive(Clone, Copy, PartialEq, Eq, Structural, Debug)]
pub struct TargetParamsInvalid;

/// Compare two byte strings.
pub fn bytes_eq(a: &Vec<u8>, b: &Vec<u8>) -> (r: bool)
    ensures
        r == (a@ == b@),
{
    if a.len() != b.len() {
        return false;
    }
    let n = a.len();
    let mut i: usize = 0;
    while i < n
        invariant
            n == a@.len(),
            n == b@.len(),
            i <= n,
            forall|k: int| 0 <= k < i ==> a@[k] == b@[k],
        decreases n - i,
    {
        if a[i] != b[i] {
            return false;
        }
        i = i + 1;
    }
    proof {
        assert(a@ =~= b@);
    }
    true
}

/// A key occurs in a pair list exactly when some pair carries it.
proof fn lemma_keys_of(ps: Seq<(Seq<u8>, Seq<u8>)>, k: Seq<u8>)
    ensures
        keys_of(ps).contains(k) <==> exists|i: int| 0 <= i < ps.len() && ps[i].0 == k,
{
    let mapped = ps.map_values(|p: (Seq<u8>, Seq<u8>)| p.0);
    if exists|i: int| 0 <= i < ps.len() && ps[i].0 == k {
        let i = choose|i: int| 0 <= i < ps.len() && ps[i].0 == k;
        assert(mapped[i] == k);
        assert(mapped.contains(k));
    }
    if mapped.to_set().contains(k) {
        let i = choose|i: int| 0 <= i < mapped.len() && mapped[i] == k;
        assert(ps[i].0 == k);
    }
}

/// Does `k` occur as a key of `ps`?
pub fn key_in(ps: &Vec<(Vec<u8>, Vec<u8>)>, k: &Vec<u8>) -> (r: bool)
    ensures
        r == keys_of(pairs_view(ps@)).contains(k@),
{
    proof {
        lemma_keys_of(pairs_view(ps@), k@);
    }
    let n = ps.len();
    let mut i: usize = 0;
    while i < n
        invariant
            n == ps@.len(),
            i <= n,
            forall|j: int| 0 <= j < i ==> pairs_view(ps@)[j].0 != k@,
        decreases n - i,
    {
        if bytes_eq(&ps[i].0, k) {
            proof {
                lemma_keys_of(pairs_view(ps@), k@);
                assert(pairs_view(ps@)[i as int].0 == k@);
            }
            return true;
        }
        i = i + 1;
    }
    false
}

/// The `state` key as a byte vector.
fn state_key_vec() -> (r: Vec<u8>)
    ensures
        r@ == state_key(),
{
    let mut v: Vec<u8> = Vec::new();
    v.push(115);
    v.push(116);
    v.push(97);
    v.push(116);
    v.push(101);
    proof {
        assert(v@ =~= state_key());
    }
    v
}

/// Merge the target's own parameters with the `state` echo and the new
/// parameters, new keys winning on collision.
pub fn merge_params(
    existing: &Vec<(Vec<u8>, Vec<u8>)>,
    st: Option<&Vec<u8>>,
    newp: &Vec<(Vec<u8>, Vec<u8>)>,
) -> (r: Vec<(Vec<u8>, Vec<u8>)>)
    ensures
        pairs_view(r@) == merged_pairs(
            pairs_view(existing@),
            match st {
                Some(v) => Some(v@),
                None => None,
            },
            pairs_view(newp@),
        ),
{
    let ghost stv: Option<Seq<u8>> = match st {
        Some(v) => Some(v@),
        None => None,
    };
    let ghost pred = |p: (Seq<u8>, Seq<u8>)| !reserved_keys(stv, pairs_view(newp@)).contains(p.0);
    let skv = state_key_vec();
    let mut out: Vec<(Vec<u8>, Vec<u8>)> = Vec::new();
    let n = existing.len();
    let mut i: usize = 0;
    while i < n
        invariant
            n == existing@.len(),
            i <= n,
            skv@ == state_key(),
            pred == (|p: (Seq<u8>, Seq<u8>)|
                !reserved_keys(stv, pairs_view(newp@)).contains(p.0)),
            stv == match st {
                Some(v) => Some(v@),
                None => None,
            },
            pairs_view(out@) == pairs_view(existing@).take(i as int).filter(pred),
        decreases n - i,
    {
        let ghost old_out = out@;
        proof {
            assert(pairs_view(existing@).take(i + 1).drop_last() =~= pairs_view(
                existing@,
            ).take(i as int));
            assert(pairs_view(existing@).take(i + 1).last() == pairs_view(existing@)[i as int]);
        }
        let key = &existing[i].0;
        let in_new = key_in(newp, key);
        let is_state = match st {
            Some(_) => bytes_eq(key, &skv),
            None => false,
        };
        proof {
            if stv is Some {
                assert(reserved_keys(stv, pairs_view(newp@)) == keys_of(pairs_view(newp@)).insert(
                    state_key(),
                ));
            }
            assert((in_new || is_state) == reserved_keys(stv, pairs_view(newp@)).contains(
                pairs_view(existing@)[i as int].0,
            ));
        }
        if !(in_new || is_state) {
            let p = &existing[i];
            out.push((p.0.clone(), p.1.clone()));
            proof {
                assert(pairs_view(out@) =~= pairs_view(old_out).push(
                    pairs_view(existing@)[i as int],
                ));
            }
        }
        proof {
            reveal(Seq::filter);
            assert(pairs_view(out@) =~= pairs_view(existing@).take(i + 1).filter(pred));
        }
        i = i + 1;
    }
    proof {
        assert(pairs_view(existing@).take(n as int) =~= pairs_view(existing@));
    }
    match st {
        Some(v) => {
            let ghost before = out@;
            out.push((skv, v.clone()));
            proof {
                assert(pairs_view(out@) =~= pairs_view(before) + state_pairs(stv));
            }
        },
        None => {
            proof {
                assert(pairs_view(out@) + state_pairs(stv) =~= pairs_view(out@));
            }
        },
    }
    let ghost with_state = pairs_view(out@);
    let m = newp.len();
    let mut j: usize = 0;
    while j < m
        invariant
            m == newp@.len(),
            j <= m,
            pairs_view(out@) == with_state + pairs_view(newp@).take(j as int),
        decreases m - j,
    {
        let ghost old_out = out@;
        let p = &newp[j];
        out.push((p.0.clone(), p.1.clone()));
        proof {
            assert(pairs_view(out@) =~= pairs_view(old_out).push(pairs_view(newp@)[j as int]));
            assert(with_state + pairs_view(newp@).take(j + 1) =~= (with_state + pairs_view(
                newp@,
            ).take(j as int)).push(pairs_view(newp@)[j as int]));
        }
        j = j + 1;
    }
    proof {
        assert(pairs_view(newp@).take(m as int) =~= pairs_view(newp@));
        assert(pairs_view(out@) =~= merged_pairs(pairs_view(existing@), stv, pairs_view(newp@)));
    }
    out
}

/// Every byte is ASCII.
pub open spec fn all_ascii(s: Seq<u8>) -> bool {
    forall|i: int| 0 <= i < s.len() ==> s[i] < 128
}

proof fn lemma_all_ascii_concat(a: Seq<u8>, b: Seq<u8>)
    requires
        all_ascii(a),
        all_ascii(b),
    ensures
        all_ascii(a + b),
{
    assert forall|i: int| 0 <= i < (a + b).len() implies (a + b)[i] < 128 by {
        if i < a.len() {
            assert((a + b)[i] == a[i]);
        } else {
            assert((a + b)[i] == b[i - a.len()]);
        }
    }
}

pub proof fn lemma_enc_bytes_ascii(bs: Seq<u8>)
    ensures
        all_ascii(enc_bytes(bs)),
    decreases bs.len(),
{
    if bs.len() > 0 {
        lemma_enc_bytes_ascii(bs.drop_last());
        assert(all_ascii(enc_byte(bs.last())));
        lemma_all_ascii_concat(enc_bytes(bs.drop_last()), enc_byte(bs.last()));
    }
}

proof fn lemma_enc_pair_ascii(p: (Seq<u8>, Seq<u8>))
    ensures
        all_ascii(enc_pair(p)),
{
    lemma_enc_bytes_ascii(p.0);
    lemma_enc_bytes_ascii(p.1);
    assert(all_ascii(seq![61u8]));
    lemma_all_ascii_concat(enc_bytes(p.0), seq![61u8]);
    lemma_all_ascii_concat(enc_bytes(p.0) + seq![61u8], enc_bytes(p.1));
    assert(enc_pair(p) =~= (enc_bytes(p.0) + seq![61u8]) + enc_bytes(p.1));
}

/// The wire form of a pair list is ASCII.
pub proof fn lemma_enc_pairs_ascii(ps: Seq<(Seq<u8>, Seq<u8>)>)
    ensures
        all_ascii(enc_pairs(ps)),
    decreases ps.len(),
{
    if ps.len() == 1 {
        lemma_enc_pair_ascii(ps[0]);
    } else if ps.len() > 1 {
        lemma_enc_pairs_ascii(ps.drop_last());
        lemma_enc_pair_ascii(ps.last());
        assert(all_ascii(seq![38u8]));
        lemma_all_ascii_concat(enc_pairs(ps.drop_last()), seq![38u8]);
        lemma_all_ascii_concat(enc_pairs(ps.drop_last()) + seq![38u8], enc_pair(ps.last()));
        assert(enc_pairs(ps) =~= (enc_pairs(ps.drop_last()) + seq![38u8]) + enc_pair(ps.last()));
    }
}

/// The query string carried by a redirect target, as bytes.
pub open spec fn query_bytes(u: UrlParts) -> Seq<u8> {
    match u.query {
        Some(q) => encode_utf8(q@),
        None => Seq::<u8>::empty(),
    }
}

/// The fragment carried by a redirect target, as bytes.
pub open spec fn fragment_bytes(u: UrlParts) -> Seq<u8> {
    match u.fragment {
        Some(f) => encode_utf8(f@),
        None => Seq::<u8>::empty(),
    }
}

/// The `#fragment` tail of a target, if any.
pub open spec fn fragment_tail(u: UrlParts) -> Seq<char> {
    match u.fragment {
        Some(f) => seq!['#'] + f@,
        None => Seq::<char>::empty(),
    }
}

/// The `?query` tail of a target, if any.
pub open spec fn query_tail(u: UrlParts) -> Seq<char> {
    match u.query {
        Some(q) => seq!['?'] + q@,
        None => Seq::<char>::empty(),
    }
}

/// Convert string pairs to byte pairs.
fn to_byte_pairs(params: &Vec<(String, String)>) -> (r: Vec<(Vec<u8>, Vec<u8>)>)
    ensures
        pairs_view(r@) == str_pairs_bytes(params@),
{
    let mut out: Vec<(Vec<u8>, Vec<u8>)> = Vec::new();
    let m = params.len();
    let mut j: usize = 0;
    while j < m
        invariant
            m == params@.len(),
            j <= m,
            pairs_view(out@) == str_pairs_bytes(params@).take(j as int),
        decreases m - j,
    {
        let ghost old_out = out@;
        let p = &params[j];
        out.push((p.0.as_str().as_bytes_vec(), p.1.as_str().as_bytes_vec()));
        proof {
            assert(pairs_view(out@) =~= pairs_view(old_out).push(str_pairs_bytes(params@)[j as int]));
            assert(str_pairs_bytes(params@).take(j + 1) =~= str_pairs_bytes(params@).take(
                j as int,
            ).push(str_pairs_bytes(params@)[j as int]));
        }
        j = j + 1;
    }
    proof {
        assert(str_pairs_bytes(params@).take(m as int) =~= str_pairs_bytes(params@));
    }
    out
}

/// The merged wire form for a target's own parameter bytes, the state echo
/// and the new parameters.
pub open spec fn merged_wire(
    own: Seq<u8>,
    st: Option<Seq<u8>>,
    newp: Seq<(Seq<u8>, Seq<u8>)>,
) -> Seq<char> {
    ascii_chars(enc_pairs(merged_pairs(parse_pairs(own)->Some_0, st, newp)))
}

/// Merge the target's own parameters (query or fragment bytes) with state
/// and new parameters, and return the encoded wire form as a string.
fn merged_query_string(
    own: &Vec<u8>,
    state: Option<&String>,
    params: &Vec<(String, String)>,
) -> (r: Result<String, TargetParamsInvalid>)
    ensures
        match r {
            Ok(qs) => parse_pairs(own@) is Some && qs@ == merged_wire(
                own@,
                state_bytes(state),
                str_pairs_bytes(params@),
            ),
            Err(e) => parse_pairs(own@) is None && e == TargetParamsInvalid,
        },
{
    let existing = parse_query(own);
    match existing {
        None => Err(TargetParamsInvalid),
        Some(ex) => {
            let stb: Option<Vec<u8>> = match state {
                Some(s) => Some(s.as_str().as_bytes_vec()),
                None => None,
            };
            let npb = to_byte_pairs(params);
            let merged = merge_params(
                &ex,
                match &stb {
                    Some(v) => Some(v),
                    None => None,
                },
                &npb,
            );
            let enc = serialize_pairs(&merged);
            proof {
                lemma_enc_pairs_ascii(pairs_view(merged@));
            }
            Ok(ascii_to_string(enc))
        },
    }
}

/// Merge the response parameters into the redirect target according to the
/// response mode, and shape the reply:
/// - `query` and `fragment` rewrite that part of the target and redirect;
/// - `form-post` posts the fields to the target as it stands, with no
///   existing-parameter merge.
///
/// The target's own parameters are preserved unless a new key overrides
/// them, and the `state` echo travels verbatim.
pub fn back_to_client(
    redirect_uri: &UrlParts,
    response_mode: ResponseMode,
    state: Option<&String>,
    params: &Vec<(String, String)>,
) -> (r: Result<ClientReply, TargetParamsInvalid>)
    ensures
        response_mode == ResponseMode::Query ==> match r {
            Ok(rep) => parse_pairs(query_bytes(*redirect_uri)) is Some && (rep matches
                ClientReply::Redirect { location } && location@ == redirect_uri.base@ + seq!['?']
                + merged_wire(
                query_bytes(*redirect_uri),
                state_bytes(state),
                str_pairs_bytes(params@),
            ) + fragment_tail(*redirect_uri)),
            Err(e) => parse_pairs(query_bytes(*redirect_uri)) is None && e == TargetParamsInvalid,
        },
        response_mode == ResponseMode::Fragment ==> match r {
            Ok(rep) => parse_pairs(fragment_bytes(*redirect_uri)) is Some && (rep matches
                ClientReply::Redirect { location } && location@ == redirect_uri.base@ + query_tail(
                *redirect_uri,
            ) + seq!['#'] + merged_wire(
                fragment_bytes(*redirect_uri),
                state_bytes(state),
                str_pairs_bytes(params@),
            )),
            Err(e) => parse_pairs(fragment_bytes(*redirect_uri)) is None && e
                == TargetParamsInvalid,
        },
        response_mode == ResponseMode::FormPost ==> (r matches Ok(rep) && rep matches
            ClientReply::FormPost { target, fields } && {
            let skip: int = if state is Some {
                1
            } else {
                0
            };
            &&& target@ == redirect_uri.to_url()
            &&& fields@.len() == params@.len() + skip
            &&& (state matches Some(s) ==> fields@[0].0@ == "state"@ && fields@[0].1 == *s)
            &&& (forall|i: int| 0 <= i < params@.len() ==> fields@[i + skip] == params@[i])
        }),
{
    match response_mode {
        ResponseMode::Query => {
            let qb: Vec<u8> = match &redirect_uri.query {
                Some(q) => q.as_str().as_bytes_vec(),
                None => Vec::new(),
            };
            proof {
                assert(qb@ =~= query_bytes(*redirect_uri));
            }
            match merged_query_string(&qb, state, params) {
                Err(e) => Err(e),
                Ok(qs) => {
                    proof {
                        reveal_strlit("?");
                        reveal_strlit("#");
                    }
                    let mut location = redirect_uri.base.clone();
                    location.append("?");
                    location.append(qs.as_str());
                    match &redirect_uri.fragment {
                        Some(f) => {
                            location.append("#");
                            location.append(f.as_str());
                        },
                        None => {},
                    }
                    proof {
                        assert(location@ =~= redirect_uri.base@ + seq!['?'] + merged_wire(
                            query_bytes(*redirect_uri),
                            state_bytes(state),
                            str_pairs_bytes(params@),
                        ) + fragment_tail(*redirect_uri));
                    }
                    Ok(ClientReply::Redirect { location })
                },
            }
        },
        ResponseMode::Fragment => {
            let fb: Vec<u8> = match &redirect_uri.fragment {
                Some(f) => f.as_str().as_bytes_vec(),
                None => Vec::new(),
            };
            proof {
                assert(fb@ =~= fragment_bytes(*redirect_uri));
            }
            match merged_query_string(&fb, state, params) {
                Err(e) => Err(e),
                Ok(qs) => {
                    proof {
                        reveal_strlit("?");
                        reveal_strlit("#");
                    }
                    let mut location = redirect_uri.base.clone();
                    match &redirect_uri.query {
                        Some(q) => {
                            location.append("?");
                            location.append(q.as_str());
                        },
                        None => {},
                    }
                    location.append("#");
                    location.append(qs.as_str());
                    proof {
                        assert(location@ =~= redirect_uri.base@ + query_tail(*redirect_uri)
                            + seq!['#'] + merged_wire(
                            fragment_bytes(*redirect_uri),
                            state_bytes(state),
                            str_pairs_bytes(params@),
                        ));
                    }
                    Ok(ClientReply::Redirect { location })
                },
            }
        },
        ResponseMode::FormPost => {
            let target = redirect_uri.assemble();
            let mut fields: Vec<(String, String)> = Vec::new();
            match state {
                Some(s) => {
                    proof {
                        reveal_strlit("state");
                    }
                    fields.push((String::from_str("state"), s.clone()));
                },
                None => {},
            }
            let ghost skip: int = if state is Some {
                1
            } else {
                0
            };
            let m = params.len();
            let mut j: usize = 0;
            while j < m
                invariant
                    m == params@.len(),
                    j <= m,
                    skip == if state is Some {
                        1int
                    } else {
                        0
                    },
                    fields@.len() == j + skip,
                    state matches Some(s) ==> fields@[0].0@ == "state"@ && fields@[0].1 == *s,
                    forall|i: int| 0 <= i < j ==> fields@[i + skip] == params@[i],
                decreases m - j,
            {
                let p = &params[j];
                fields.push((p.0.clone(), p.1.clone()));
                j = j + 1;
            }
            Ok(ClientReply::FormPost { target, fields })
        },
    }
}

/// Law: the merge never drops a target parameter whose key no new parameter
/// (nor the state echo) overrides — it stays in the merged bag unchanged.
pub proof fn lemma_merge_preserves_existing(
    existing: Seq<(Seq<u8>, Seq<u8>)>,
    st: Option<Seq<u8>>,
    newp: Seq<(Seq<u8>, Seq<u8>)>,
    i: int,
)
    requires
        0 <= i < existing.len(),
        !reserved_keys(st, newp).contains(existing[i].0),
    ensures
        merged_pairs(existing, st, newp).contains(existing[i]),
{
    let pred = |p: (Seq<u8>, Seq<u8>)| !reserved_keys(st, newp).contains(p.0);
    existing.lemma_filter_contains(pred, i);
    let f = existing.filter(pred);
    let j = choose|j: int| 0 <= j < f.len() && f[j] == existing[i];
    assert(merged_pairs(existing, st, newp)[j] == existing[i]);
}

/// Law: every new parameter stands in the merged bag, after the state echo.
pub proof fn lemma_merge_includes_new(
    existing: Seq<(Seq<u8>, Seq<u8>)>,
    st: Option<Seq<u8>>,
    newp: Seq<(Seq<u8>, Seq<u8>)>,
    i: int,
)
    requires
        0 <= i < newp.len(),
    ensures
        merged_pairs(existing, st, newp).contains(newp[i]),
{
    let pred = |p: (Seq<u8>, Seq<u8>)| !reserved_keys(st, newp).contains(p.0);
    let off = existing.filter(pred).len() + state_pairs(st).len();
    assert(merged_pairs(existing, st, newp)[off + i] == newp[i]);
}

/// Law: when a state is delivered, the merged bag carries it verbatim under
/// the `state` key.
pub proof fn lemma_merge_includes_state(
    existing: Seq<(Seq<u8>, Seq<u8>)>,
    v: Seq<u8>,
    newp: Seq<(Seq<u8>, Seq<u8>)>,
)
    ensures
        merged_pairs(existing, Some(v), newp).contains((state_key(), v)),
{
    let pred = |p: (Seq<u8>, Seq<u8>)| !reserved_keys(Some(v), newp).contains(p.0);
    let off = existing.filter(pred).len() as int;
    assert(merged_pairs(existing, Some(v), newp)[off] == (state_key(), v));
}

/// Law: the merged bag invents nothing — each of its pairs is a target
/// parameter, the state echo, or a new parameter; and a pair whose key a new
/// parameter (or the state echo) claims never comes from the target.
pub proof fn lemma_merge_no_invention(
    existing: Seq<(Seq<u8>, Seq<u8>)>,
    st: Option<Seq<u8>>,
    newp: Seq<(Seq<u8>, Seq<u8>)>,
    j: int,
)
    requires
        0 <= j < merged_pairs(existing, st, newp).len(),
    ensures
        existing.contains(merged_pairs(existing, st, newp)[j]) || state_pairs(st).contains(
            merged_pairs(existing, st, newp)[j],
        ) || newp.contains(merged_pairs(existing, st, newp)[j]),
        reserved_keys(st, newp).contains(merged_pairs(existing, st, newp)[j].0)
            ==> state_pairs(st).contains(merged_pairs(existing, st, newp)[j]) || newp.contains(
            merged_pairs(existing, st, newp)[j],
        ),
{
    let pred = |p: (Seq<u8>, Seq<u8>)| !reserved_keys(st, newp).contains(p.0);
    let f = existing.filter(pred);
    let m = merged_pairs(existing, st, newp);
    if j < f.len() {
        existing.lemma_filter_pred(pred, j);
        assert(f.contains(f[j]));
        existing.lemma_filter_contains_rev(pred, f[j]);
        assert(m[j] == f[j]);
    } else if j < f.len() + state_pairs(st).len() {
        assert(m[j] == state_pairs(st)[j - f.len()]);
        assert(state_pairs(st).contains(m[j]));
    } else {
        assert(m[j] == newp[j - f.len() - state_pairs(st).len()]);
        assert(newp.contains(m[j]));
    }
}

} // verus!
