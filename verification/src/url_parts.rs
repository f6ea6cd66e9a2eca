//! A redirect target split into base, query string and fragment, so that
//! response parameters can be merged into the right part and the result
//! reassembled into a `Location` value.

use vstd::prelude::*;
use vstd::string::StrSliceExecFns;
use vstd::string::StringExecFns;

verus! {

/// `c` does not occur in `s`.
pub open spec fn no_char(s: Seq<char>, c: char) -> bool {
    forall|i: int| 0 <= i < s.len() ==> s[i] != c
}

/// The position of the first occurrence of `c` in `s`.
pub open spec fn find_ch(s: Seq<char>, c: char) -> Option<int>
    decreases s.len(),
{
    if s.len() == 0 {
        None
    } else if s[0] == c {
        Some(0)
    } else {
        match find_ch(s.drop_first(), c) {
            Some(i) => Some(i + 1),
            None => None,
        }
    }
}

/// A found position lies inside the string, on an occurrence of the
/// character, with none before it.
pub proof fn lemma_find_ch_range(s: Seq<char>, c: char)
    ensures
        find_ch(s, c) matches Some(i) ==> 0 <= i < s.len() && s[i] == c && (forall|k: int|
            0 <= k < i ==> s[k] != c),
        find_ch(s, c) is None ==> no_char(s, c),
    decreases s.len(),
{
    if s.len() > 0 && s[0] != c {
        lemma_find_ch_range(s.drop_first(), c);
        assert(forall|k: int| 1 <= k < s.len() ==> s[k] == s.drop_first()[k - 1]);
    }
}

/// Find the first occurrence of `c` in `s`.
pub fn find_char(s: &str, c: char) -> (r: Option<usize>)
    ensures
        match r {
            Some(p) => find_ch(s@, c) == Some(p as int),
            None => find_ch(s@, c) is None,
        },
{
    let n = s.unicode_len();
    let mut j: usize = 0;
    proof {
        assert(s@.skip(0) =~= s@);
    }
    while j < n
        invariant
            j <= n,
            n == s@.len(),
            find_ch(s@, c) == match find_ch(s@.skip(j as int), c) {
                Some(i) => Some(i + j),
                None => None::<int>,
            },
        decreases n - j,
    {
        proof {
            assert(s@.skip(j as int)[0] == s@[j as int]);
            assert(s@.skip(j as int).drop_first() =~= s@.skip(j + 1));
        }
        if s.get_char(j) == c {
            return Some(j);
        }
        j = j + 1;
    }
    proof {
        assert(s@.skip(n as int) =~= Seq::<char>::empty());
    }
    None
}

/// Finding in a concatenation whose left part lacks the character reduces
/// to finding in the right part.
proof fn lemma_find_ch_concat(a: Seq<char>, b: Seq<char>, c: char)
    requires
        no_char(a, c),
    ensures
        find_ch(a + b, c) == match find_ch(b, c) {
            Some(i) => Some(i + a.len()),
            None => None::<int>,
        },
    decreases a.len(),
{
    if a.len() == 0 {
        assert(a + b =~= b);
    } else {
        lemma_find_ch_concat(a.drop_first(), b, c);
        let s = a + b;
        assert(s[0] == a[0]);
        assert(s.drop_first() =~= a.drop_first() + b);
    }
}

/// A redirect target: the part before any query or fragment, the query
/// string (without its `?`), and the fragment (without its `#`).
pub struct UrlParts {
    pub base: String,
    pub query: Option<String>,
    pub fragment: Option<String>,
}

impl UrlParts {
    /// The split is unambiguous: no stray `?` or `#` in the base, no `#` in
    /// the query.
    pub open spec fn wf(self) -> bool {
        &&& no_char(self.base@, '?')
        &&& no_char(self.base@, '#')
        &&& (self.query matches Some(q) ==> no_char(q@, '#'))
    }

    /// The URL these parts assemble to.
    pub open spec fn to_url(self) -> Seq<char> {
        self.base@ + (match self.query {
            Some(q) => seq!['?'] + q@,
            None => Seq::<char>::empty(),
        }) + (match self.fragment {
            Some(f) => seq!['#'] + f@,
            None => Seq::<char>::empty(),
        })
    }

    /// A field-for-field copy.
    pub fn duplicate(&self) -> (r: UrlParts)
        ensures
            r == *self,
    {
        UrlParts {
            base: self.base.clone(),
            query: match &self.query {
                Some(q) => Some(q.clone()),
                None => None,
            },
            fragment: match &self.fragment {
                Some(f) => Some(f.clone()),
                None => None,
            },
        }
    }

    /// Split a URL at its first `#`, and the part before that at its first
    /// `?`. Every URL splits; the result assembles back to the input.
    pub fn parse(s: &str) -> (r: UrlParts)
        ensures
            r.to_url() == s@,
            r.wf(),
    {
        let n = s.unicode_len();
        proof {
            lemma_find_ch_range(s@, '#');
        }
        let (head, fragment) = match find_char(s, '#') {
            Some(h) => (s.substring_char(0, h), Some(s.substring_char(h + 1, n).to_owned())),
            None => (s.substring_char(0, n), None),
        };
        proof {
            lemma_find_ch_range(head@, '?');
        }
        let hn = head.unicode_len();
        let (base, query) = match find_char(head, '?') {
            Some(q) => (
                head.substring_char(0, q).to_owned(),
                Some(head.substring_char(q + 1, hn).to_owned()),
            ),
            None => (head.substring_char(0, hn).to_owned(), None),
        };
        let r = UrlParts { base, query, fragment };
        proof {
            assert(r.to_url() =~= s@);
        }
        r
    }

    /// Reassemble the parts into one URL string.
    pub fn assemble(&self) -> (r: String)
        ensures
            r@ == self.to_url(),
    {
        proof {
            reveal_strlit("?");
            reveal_strlit("#");
        }
        let mut r = self.base.clone();
        match &self.query {
            Some(q) => {
                r.append("?");
                r.append(q.as_str());
            },
            None => {},
        }
        match &self.fragment {
            Some(f) => {
                r.append("#");
                r.append(f.as_str());
            },
            None => {},
        }
        proof {
            assert(r@ =~= self.to_url());
        }
        r
    }
}

/// The part of a target before any fragment marker.
pub open spec fn head_chars(p: UrlParts) -> Seq<char> {
    p.base@ + (match p.query {
        Some(q) => seq!['?'] + q@,
        None => Seq::<char>::empty(),
    })
}

/// A well-formed head holds no fragment marker.
proof fn lemma_no_hash_in_head(p: UrlParts)
    requires
        p.wf(),
    ensures
        no_char(head_chars(p), '#'),
{
    let h = head_chars(p);
    assert forall|i: int| 0 <= i < h.len() implies h[i] != '#' by {
        if i < p.base@.len() {
            assert(h[i] == p.base@[i]);
        } else {
            match p.query {
                Some(q) => {
                    if i == p.base@.len() {
                        assert(h[i] == '?');
                    } else {
                        assert(h[i] == q@[i - p.base@.len() - 1]);
                    }
                },
                None => {},
            }
        }
    }
}

/// In a well-formed target, the first `#` sits exactly between the head and
/// the fragment; with no fragment, there is no `#` at all.
proof fn lemma_hash_mark(p: UrlParts)
    requires
        p.wf(),
    ensures
        p.fragment matches Some(f) ==> find_ch(p.to_url(), '#') == Some(
            head_chars(p).len() as int,
        ) && p.to_url().take(head_chars(p).len() as int) == head_chars(p) && p.to_url().skip(
            head_chars(p).len() as int + 1,
        ) == f@,
        p.fragment is None ==> find_ch(p.to_url(), '#') is None && p.to_url() == head_chars(p),
{
    lemma_no_hash_in_head(p);
    let h = head_chars(p);
    match p.fragment {
        Some(f) => {
            let tail = seq!['#'] + f@;
            assert(p.to_url() =~= h + tail);
            lemma_find_ch_concat(h, tail, '#');
            assert(tail[0] == '#');
            assert(p.to_url().take(h.len() as int) =~= h);
            assert(p.to_url().skip(h.len() as int + 1) =~= f@);
        },
        None => {
            assert(p.to_url() =~= h);
            lemma_find_ch_range(h, '#');
            if find_ch(h, '#') is Some {
                let i = find_ch(h, '#')->Some_0;
                assert(h[i] == '#');
                assert(false);
            }
        },
    }
}

/// In a well-formed head, the first `?` sits exactly between the base and
/// the query; with no query, there is no `?` at all.
proof fn lemma_query_mark(p: UrlParts)
    requires
        p.wf(),
    ensures
        p.query matches Some(q) ==> find_ch(head_chars(p), '?') == Some(p.base@.len() as int)
            && head_chars(p).take(p.base@.len() as int) == p.base@ && head_chars(p).skip(
            p.base@.len() as int + 1,
        ) == q@,
        p.query is None ==> find_ch(head_chars(p), '?') is None && head_chars(p) == p.base@,
{
    let h = head_chars(p);
    match p.query {
        Some(q) => {
            let tail = seq!['?'] + q@;
            assert(h =~= p.base@ + tail);
            lemma_find_ch_concat(p.base@, tail, '?');
            assert(tail[0] == '?');
            assert(h.take(p.base@.len() as int) =~= p.base@);
            assert(h.skip(p.base@.len() as int + 1) =~= q@);
        },
        None => {
            assert(h =~= p.base@);
            lemma_find_ch_range(h, '?');
            if find_ch(h, '?') is Some {
                let i = find_ch(h, '?')->Some_0;
                assert(h[i] == '?');
                assert(false);
            }
        },
    }
}

/// Law: the well-formed split of a URL is unambiguous — two well-formed
/// part sets that assemble to the same URL agree part for part, so
/// [`UrlParts::parse`]'s contract determines its result.
pub proof fn lemma_split_unambiguous(p1: UrlParts, p2: UrlParts)
    requires
        p1.wf(),
        p2.wf(),
        p1.to_url() == p2.to_url(),
    ensures
        p1.base@ == p2.base@,
        match (p1.query, p2.query) {
            (Some(q1), Some(q2)) => q1@ == q2@,
            (None, None) => true,
            _ => false,
        },
        match (p1.fragment, p2.fragment) {
            (Some(f1), Some(f2)) => f1@ == f2@,
            (None, None) => true,
            _ => false,
        },
{
    lemma_hash_mark(p1);
    lemma_hash_mark(p2);
    assert(head_chars(p1) == head_chars(p2));
    lemma_query_mark(p1);
    lemma_query_mark(p2);
}

} // verus!
