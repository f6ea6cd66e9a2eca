//! The OAuth2 scope grammar: a scope is one or more space-separated tokens
//! of printable ASCII characters (excluding space, `"` and `\`).

use vstd::prelude::*;
use vstd::string::StrSliceExecFns;

use crate::engine::joined_scope;
use crate::url_parts::find_ch;
use crate::url_parts::lemma_find_ch_range;

verus! {

/// A character a scope token may hold.
pub open spec fn is_scope_char(c: char) -> bool {
    c as u32 == 0x21 || (0x23 <= c as u32 && c as u32 <= 0x5B) || (0x5D <= c as u32 && c as u32
        <= 0x7E)
}

/// A scope token: nonempty, of scope characters only.
pub open spec fn valid_scope_token(t: Seq<char>) -> bool {
    t.len() > 0 && forall|i: int| 0 <= i < t.len() ==> is_scope_char(#[trigger] t[i])
}

/// The tokens of a scope string, split on single spaces; `None` when the
/// string is empty, a token is empty, or a character is out of the grammar.
pub open spec fn spec_parse_scope(s: Seq<char>) -> Option<Seq<Seq<char>>>
    decreases s.len(),
    via spec_parse_scope_decreases
{
    if s.len() == 0 {
        None
    } else {
        match find_ch(s, ' ') {
            None => if valid_scope_token(s) {
                Some(seq![s])
            } else {
                None
            },
            Some(i) => if valid_scope_token(s.take(i)) {
                match spec_parse_scope(s.skip(i + 1)) {
                    Some(ts) => Some(seq![s.take(i)] + ts),
                    None => None,
                }
            } else {
                None
            },
        }
    }
}

#[via_fn]
proof fn spec_parse_scope_decreases(s: Seq<char>) {
    lemma_find_ch_range(s, ' ');
}

/// Is every character of `t` in the scope grammar?
fn all_scope_chars(t: &str) -> (r: bool)
    ensures
        r == forall|i: int| 0 <= i < t@.len() ==> is_scope_char(#[trigger] t@[i]),
{
    let n = t.unicode_len();
    let mut i: usize = 0;
    while i < n
        invariant
            n == t@.len(),
            i <= n,
            forall|k: int| 0 <= k < i ==> is_scope_char(#[trigger] t@[k]),
        decreases n - i,
    {
        let c = t.get_char(i);
        let u = c as u32;
        if !(u == 0x21 || (0x23 <= u && u <= 0x5B) || (0x5D <= u && u <= 0x7E)) {
            return false;
        }
        i = i + 1;
    }
    true
}

/// Parse a scope string into its tokens, order preserved; `None` when the
/// string does not follow the grammar.
pub fn parse_scope(s: &str) -> (r: Option<Vec<String>>)
    ensures
        match r {
            Some(ts) => spec_parse_scope(s@) == Some(
                ts@.map_values(|t: String| t@),
            ),
            None => spec_parse_scope(s@) is None,
        },
{
    let n = s.unicode_len();
    if n == 0 {
        return None;
    }
    let mut out: Vec<String> = Vec::new();
    let mut pos: usize = 0;
    proof {
        assert(s@.skip(0) =~= s@);
    }
    loop
        invariant
            pos <= n,
            n == s@.len(),
            n > 0,
            spec_parse_scope(s@) == match spec_parse_scope(s@.skip(pos as int)) {
                Some(rest) => Some(out@.map_values(|t: String| t@) + rest),
                None => None::<Seq<Seq<char>>>,
            },
        decreases n - pos,
    {
        if pos == n {
            return None;
        }
        proof {
            lemma_find_ch_range(s@.skip(pos as int), ' ');
        }
        let tail = s.substring_char(pos, n);
        proof {
            assert(tail@ =~= s@.skip(pos as int));
        }
        let sep = crate::url_parts::find_char(tail, ' ');
        match sep {
            None => {
                let tok = tail;
                if !tok.is_empty() && all_scope_chars(tok) {
                    let ghost old_out = out@;
                    out.push(tok.to_owned());
                    proof {
                        assert(out@.map_values(|t: String| t@) =~= old_out.map_values(
                            |t: String| t@,
                        ) + seq![s@.skip(pos as int)]);
                    }
                    return Some(out);
                } else {
                    return None;
                }
            },
            Some(i) => {
                proof {
                    assert(s@.skip(pos as int).take(i as int) =~= s@.subrange(
                        pos as int,
                        pos + i,
                    ));
                    assert(s@.skip(pos as int).skip(i + 1) =~= s@.skip(pos + i + 1));
                }
                let tok = s.substring_char(pos, pos + i);
                proof {
                    assert(tok@ =~= s@.skip(pos as int).take(i as int));
                }
                if !tok.is_empty() && all_scope_chars(tok) {
                    let ghost old_out = out@;
                    out.push(tok.to_owned());
                    proof {
                        assert(out@.map_values(|t: String| t@) =~= old_out.map_values(
                            |t: String| t@,
                        ) + seq![s@.skip(pos as int).take(i as int)]);
                        let rest = spec_parse_scope(s@.skip(pos + i + 1));
                        if rest is Some {
                            let t = rest->Some_0;
                            assert(out@.map_values(|t2: String| t2@) + t =~= old_out.map_values(
                                |t2: String| t2@,
                            ) + (seq![s@.skip(pos as int).take(i as int)] + t));
                        }
                    }
                    pos = pos + i + 1;
                    proof {
                        if s@.skip(pos as int).len() == 0 {
                            assert(spec_parse_scope(s@.skip(pos as int)) is None);
                        }
                    }
                } else {
                    return None;
                }
            },
        }
    }
}

/// A join of two or more tokens unfolds from the front.
proof fn lemma_joined_front(ts: Seq<Seq<char>>)
    requires
        ts.len() >= 2,
    ensures
        joined_scope(ts) == ts[0] + seq![' '] + joined_scope(ts.drop_first()),
    decreases ts.len(),
{
    if ts.len() == 2 {
        assert(ts.drop_last()[0] == ts[0]);
        assert(ts.drop_first()[0] == ts[1]);
        assert(joined_scope(ts.drop_last()) == ts[0]);
        assert(joined_scope(ts.drop_first()) == ts[1]);
    } else {
        lemma_joined_front(ts.drop_last());
        assert(ts.drop_last().drop_first() =~= ts.drop_first().drop_last());
        assert(ts.drop_first().last() == ts.last());
        assert(ts.drop_last()[0] == ts[0]);
        assert(joined_scope(ts.drop_first()) == joined_scope(ts.drop_first().drop_last())
            + seq![' '] + ts.drop_first().last());
        assert((ts.drop_last()[0] + seq![' '] + joined_scope(ts.drop_last().drop_first()))
            + seq![' '] + ts.last() =~= ts[0] + seq![' '] + joined_scope(ts.drop_first()));
    }
}

/// The first space of `a + " " + b` sits right after `a`, when `a` holds no
/// space.
proof fn lemma_find_space_after(a: Seq<char>, b: Seq<char>)
    requires
        forall|i: int| 0 <= i < a.len() ==> a[i] != ' ',
    ensures
        find_ch(a + seq![' '] + b, ' ') == Some(a.len() as int),
    decreases a.len(),
{
    let s = a + seq![' '] + b;
    if a.len() == 0 {
        assert(s[0] == ' ');
    } else {
        lemma_find_space_after(a.drop_first(), b);
        assert(s[0] == a[0]);
        assert(s.drop_first() =~= a.drop_first() + seq![' '] + b);
    }
}

/// A valid scope token holds no space.
proof fn lemma_token_no_space(t: Seq<char>)
    requires
        valid_scope_token(t),
    ensures
        forall|i: int| 0 <= i < t.len() ==> t[i] != ' ',
{
    assert forall|i: int| 0 <= i < t.len() implies t[i] != ' ' by {
        assert(is_scope_char(t[i]));
        if t[i] == ' ' {
            assert(t[i] as u32 == 32);
        }
    }
}

/// Law: joining valid scope tokens with spaces, as a stored session does,
/// parses back to exactly those tokens, in order.
pub proof fn lemma_join_then_parse(ts: Seq<Seq<char>>)
    requires
        ts.len() > 0,
        forall|i: int| 0 <= i < ts.len() ==> valid_scope_token(#[trigger] ts[i]),
    ensures
        spec_parse_scope(joined_scope(ts)) == Some(ts),
    decreases ts.len(),
{
    if ts.len() == 1 {
        let t = ts[0];
        assert(joined_scope(ts) == t);
        lemma_token_no_space(t);
        lemma_find_ch_range(t, ' ');
        if find_ch(t, ' ') is Some {
            let i = find_ch(t, ' ')->Some_0;
            assert(t[i] == ' ');
            assert(false);
        }
        assert(seq![t] =~= ts);
    } else {
        lemma_joined_front(ts);
        let a = ts[0];
        let rest = joined_scope(ts.drop_first());
        let s = joined_scope(ts);
        assert(s == a + seq![' '] + rest);
        lemma_token_no_space(a);
        lemma_find_space_after(a, rest);
        assert(s.take(a.len() as int) =~= a);
        assert(s.skip(a.len() as int + 1) =~= rest);
        assert(forall|i: int|
            0 <= i < ts.drop_first().len() ==> valid_scope_token(
                #[trigger] ts.drop_first()[i],
            )) by {
            assert(forall|i: int|
                0 <= i < ts.drop_first().len() ==> ts.drop_first()[i] == ts[i + 1]);
        }
        lemma_join_then_parse(ts.drop_first());
        assert(seq![a] + ts.drop_first() =~= ts);
    }
}

} // verus!
