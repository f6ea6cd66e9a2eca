//! Client-held ledger of pending upstream-provider linking attempts.
//!
//! The ledger survives the redirect round trip to an external identity
//! provider inside a tamper-proof client-held token. Entries expire by age,
//! are findable by `(provider, state)` only until they acquire a link, and a
//! link can be consumed at most once. All operations are functional: they
//! return a new ledger value for the caller to persist.

use vstd::prelude::*;

verus! {

/// Entries expire this many milliseconds after the creation instant embedded
/// in their session id.
pub const SESSION_MAX_TIME_MS: i64 = 600000;

/// A time-ordered opaque identifier: a 48-bit creation timestamp in
/// milliseconds since the epoch, and an 80-bit random part.
#[derive(Clone, Copy, PartialEq, Eq, Structural, Debug)]
pub struct TimeOrderedId {
    pub timestamp_ms: u64,
    pub random: u128,
}

impl TimeOrderedId {
    /// Both parts stay within their bit widths.
    pub open spec fn wf(self) -> bool {
        self.timestamp_ms < 0x1000000000000 && self.random < 0x100000000000000000000
    }

    /// The id as one number: the timestamp in the high 48 bits, the random
    /// part in the low 80.
    pub open spec fn spec_value(self) -> int {
        self.timestamp_ms * 0x100000000000000000000 + self.random
    }

    /// Executable counterpart of [`Self::spec_value`].
    pub fn value(&self) -> (r: u128)
        requires
            self.wf(),
        ensures
            r == self.spec_value(),
    {
        proof {
            assert((self.timestamp_ms as int) * 0x100000000000000000000 <= 0xFFFFFFFFFFFF
                * 0x100000000000000000000) by (nonlinear_arith)
                requires
                    self.timestamp_ms < 0x1000000000000,
            ;
        }
        (self.timestamp_ms as u128) * 0x100000000000000000000u128 + self.random
    }

    /// Build an id from its parts; overflowing bits are discarded.
    pub fn new(timestamp_ms: u64, random: u128) -> (r: Self)
        ensures
            r.timestamp_ms == timestamp_ms as int % 0x1000000000000,
            r.random == random as int % 0x100000000000000000000,
            r.wf(),
    {
        TimeOrderedId {
            timestamp_ms: timestamp_ms % 0x1000000000000u64,
            random: random % 0x100000000000000000000u128,
        }
    }
}

/// One pending or linked upstream authentication attempt.
pub struct Payload {
    pub session: TimeOrderedId,
    pub provider: TimeOrderedId,
    pub state: String,
    pub link: Option<TimeOrderedId>,
}

impl Payload {
    /// An entry is stale once the creation instant embedded in its session id
    /// is more than [`SESSION_MAX_TIME_MS`] before `now_ms`.
    pub open spec fn spec_expired(self, now_ms: int) -> bool {
        now_ms - self.session.timestamp_ms > SESSION_MAX_TIME_MS
    }

    /// Executable counterpart of [`Self::spec_expired`].
    pub fn expired(&self, now_ms: i64) -> (r: bool)
        requires
            self.session.wf(),
            0 <= now_ms,
        ensures
            r == self.spec_expired(now_ms as int),
    {
        now_ms - (self.session.timestamp_ms as i64) > SESSION_MAX_TIME_MS
    }

    /// A field-for-field copy.
    pub fn duplicate(&self) -> (r: Payload)
        ensures
            r == *self,
    {
        Payload {
            session: self.session,
            provider: self.provider,
            state: self.state.clone(),
            link: self.link,
        }
    }
}

/// Error of the ledger lookups: no entry matches.
#[derive(Clone, Copy, PartialEq, Eq, Structural, Debug)]
pub struct UpstreamSessionNotFound;

impl UpstreamSessionNotFound {
    /// A human-readable description of this error.
    pub fn message(&self) -> (r: &'static str)
        ensures
            r@ == "upstream session not found"@,
    {
        "upstream session not found"
    }
}

/// An entry matches a `(provider, state)` query only while it has no link.
pub open spec fn entry_matches(p: Payload, provider: TimeOrderedId, state: Seq<char>) -> bool {
    p.provider == provider && p.state@ == state && p.link is None
}

/// An entry can receive a link for `session` only while it has none.
pub open spec fn unlinked_for(p: Payload, session: TimeOrderedId) -> bool {
    p.session == session && p.link is None
}

/// The entry `p` with its link set to `link`.
pub open spec fn with_link(p: Payload, link: TimeOrderedId) -> Payload {
    Payload { session: p.session, provider: p.provider, state: p.state, link: Some(link) }
}

/// The session id of the first unlinked entry matching `(provider, state)`.
pub open spec fn spec_find_session(
    s: Seq<Payload>,
    provider: TimeOrderedId,
    state: Seq<char>,
) -> Option<TimeOrderedId>
    decreases s.len(),
{
    if s.len() == 0 {
        None
    } else if entry_matches(s[0], provider, state) {
        Some(s[0].session)
    } else {
        spec_find_session(s.drop_first(), provider, state)
    }
}

/// The ledger after setting `link` on the first unlinked entry for
/// `session`, or `None` when there is no such entry.
pub open spec fn spec_add_link(
    s: Seq<Payload>,
    session: TimeOrderedId,
    link: TimeOrderedId,
) -> Option<Seq<Payload>>
    decreases s.len(),
{
    if s.len() == 0 {
        None
    } else if unlinked_for(s[0], session) {
        Some(seq![with_link(s[0], link)] + s.drop_first())
    } else {
        match spec_add_link(s.drop_first(), session, link) {
            Some(t) => Some(seq![s[0]] + t),
            None => None,
        }
    }
}

/// The session id of the first entry carrying `link`.
pub open spec fn spec_lookup_link(s: Seq<Payload>, link: TimeOrderedId) -> Option<TimeOrderedId>
    decreases s.len(),
{
    if s.len() == 0 {
        None
    } else if s[0].link == Some(link) {
        Some(s[0].session)
    } else {
        spec_lookup_link(s.drop_first(), link)
    }
}

/// The ledger with the first entry carrying `link` removed, or `None` when
/// no entry carries it.
pub open spec fn spec_consume_link(s: Seq<Payload>, link: TimeOrderedId) -> Option<Seq<Payload>>
    decreases s.len(),
{
    if s.len() == 0 {
        None
    } else if s[0].link == Some(link) {
        Some(s.drop_first())
    } else {
        match spec_consume_link(s.drop_first(), link) {
            Some(t) => Some(seq![s[0]] + t),
            None => None,
        }
    }
}

/// No two entries carry the same link.
pub open spec fn links_unique(s: Seq<Payload>) -> bool {
    forall|i: int, j: int|
        0 <= i < j < s.len() && s[i].link is Some && s[j].link is Some ==> s[i].link
            != s[j].link
}

/// The append-only, client-held list of pending linking attempts.
pub struct UpstreamSessions(Vec<Payload>);

impl UpstreamSessions {
    /// The entries, oldest first.
    pub closed spec fn entries(self) -> Seq<Payload> {
        self.0@
    }

    /// All entries carry well-formed session ids.
    pub open spec fn wf(self) -> bool {
        forall|i: int| 0 <= i < self.entries().len() ==> (#[trigger] self.entries()[i]).session.wf()
    }

    /// The empty ledger.
    pub fn new() -> (r: Self)
        ensures
            r.entries().len() == 0,
            r.wf(),
    {
        UpstreamSessions(Vec::new())
    }

    /// The ledger held by the client, or the empty ledger when the token was
    /// missing or could not be decoded (`None`). Never an error: a lost
    /// ledger only means the upstream flow starts fresh.
    pub fn load(decoded: Option<UpstreamSessions>) -> (r: Self)
        ensures
            match decoded {
                Some(s) => r == s,
                None => r.entries().len() == 0 && r.wf(),
            },
    {
        match decoded {
            Some(s) => s,
            None => UpstreamSessions::new(),
        }
    }

    /// Drop every entry whose age at `now_ms` exceeds the ledger lifetime.
    pub fn expire(self, now_ms: i64) -> (r: Self)
        requires
            self.wf(),
            0 <= now_ms,
        ensures
            r.entries() == self.entries().filter(|p: Payload| !p.spec_expired(now_ms as int)),
            r.wf(),
    {
        let ghost pred = |p: Payload| !p.spec_expired(now_ms as int);
        let mut out: Vec<Payload> = Vec::new();
        let n = self.0.len();
        let mut i: usize = 0;
        while i < n
            invariant
                n == self.entries().len(),
                i <= n,
                self.wf(),
                0 <= now_ms,
                out@ == self.entries().take(i as int).filter(pred),
                pred == (|p: Payload| !p.spec_expired(now_ms as int)),
                forall|k: int| 0 <= k < out@.len() ==> (#[trigger] out@[k]).session.wf(),
            decreases n - i,
        {
            let p = &self.0[i];
            proof {
                reveal(Seq::filter);
                assert(self.entries().take(i + 1).drop_last() =~= self.entries().take(i as int));
                assert(self.entries().take(i + 1).last() == self.entries()[i as int]);
            }
            if !p.expired(now_ms) {
                out.push(p.duplicate());
            }
            i = i + 1;
        }
        proof {
            assert(self.entries().take(n as int) =~= self.entries());
        }
        UpstreamSessions(out)
    }

    /// Expire stale entries, and return the surviving ledger together with
    /// the absolute expiry instant to put on the client-held token.
    pub fn save(self, now_ms: i64) -> (r: (Self, i64))
        requires
            self.wf(),
            0 <= now_ms,
            now_ms + SESSION_MAX_TIME_MS <= i64::MAX,
        ensures
            r.0.entries() == self.entries().filter(|p: Payload| !p.spec_expired(now_ms as int)),
            r.0.wf(),
            r.1 == now_ms + SESSION_MAX_TIME_MS,
    {
        let kept = self.expire(now_ms);
        (kept, now_ms + SESSION_MAX_TIME_MS)
    }

    /// Append a new unlinked entry for a provider and an opaque state.
    pub fn add(self, session: TimeOrderedId, provider: TimeOrderedId, state: String) -> (r: Self)
        ensures
            r.entries() == self.entries().push(
                Payload { session, provider, state, link: None },
            ),
            self.wf() && session.wf() ==> r.wf(),
    {
        let mut this = self;
        this.0.push(Payload { session, provider, state, link: None });
        this
    }

    /// The session id of the unique unlinked entry matching both fields, or
    /// "not found". An entry that has acquired a link never matches.
    pub fn find_session(&self, provider: TimeOrderedId, state: &String) -> (r: Result<
        TimeOrderedId,
        UpstreamSessionNotFound,
    >)
        ensures
            r == match spec_find_session(self.entries(), provider, state@) {
                Some(sid) => Ok::<TimeOrderedId, UpstreamSessionNotFound>(sid),
                None => Err::<TimeOrderedId, UpstreamSessionNotFound>(UpstreamSessionNotFound),
            },
    {
        let n = self.0.len();
        let mut i: usize = 0;
        proof {
            assert(self.entries().skip(0) =~= self.entries());
        }
        while i < n
            invariant
                n == self.entries().len(),
                i <= n,
                spec_find_session(self.entries().skip(i as int), provider, state@)
                    == spec_find_session(self.entries(), provider, state@),
            decreases n - i,
        {
            let p = &self.0[i];
            proof {
                assert(self.entries().skip(i as int)[0] == self.entries()[i as int]);
                assert(self.entries().skip(i as int).drop_first() =~= self.entries().skip(
                    i + 1,
                ));
            }
            let is_match = p.provider == provider && p.state == *state && p.link.is_none();
            if is_match {
                return Ok(p.session);
            }
            i = i + 1;
        }
        proof {
            assert(self.entries().skip(n as int) =~= Seq::<Payload>::empty());
        }
        Err(UpstreamSessionNotFound)
    }

    /// Record the link generated for `session` on its unlinked entry; fails
    /// "not found" when that session has no unlinked entry.
    pub fn add_link_to_session(self, session: TimeOrderedId, link: TimeOrderedId) -> (r: Result<
        Self,
        UpstreamSessionNotFound,
    >)
        ensures
            (r matches Ok(l) ==> spec_add_link(self.entries(), session, link) == Some(
                l.entries(),
            ) && (self.wf() ==> l.wf())),
            r is Err <==> spec_add_link(self.entries(), session, link) is None,
    {
        let mut this = self;
        let n = this.0.len();
        let mut i: usize = 0;
        while i < n
            invariant
                this == self,
                n == this.entries().len(),
                i <= n,
                forall|k: int| 0 <= k < i ==> !unlinked_for(#[trigger] this.entries()[k], session),
            decreases n - i,
        {
            let unlinked = this.0[i].session == session && this.0[i].link.is_none();
            if unlinked {
                proof {
                    lemma_add_link_at_first_index(this.entries(), session, link, i as int);
                }
                let ghost before = this.entries();
                this.0[i].link = Some(link);
                proof {
                    assert(this.entries() =~= before.update(
                        i as int,
                        with_link(before[i as int], link),
                    ));
                }
                return Ok(this);
            }
            i = i + 1;
        }
        proof {
            lemma_add_link_no_match(this.entries(), session, link);
        }
        Err(UpstreamSessionNotFound)
    }

    /// The session id owning `link`, or "not found".
    pub fn lookup_link(&self, link_id: TimeOrderedId) -> (r: Result<
        TimeOrderedId,
        UpstreamSessionNotFound,
    >)
        ensures
            r == match spec_lookup_link(self.entries(), link_id) {
                Some(sid) => Ok::<TimeOrderedId, UpstreamSessionNotFound>(sid),
                None => Err::<TimeOrderedId, UpstreamSessionNotFound>(UpstreamSessionNotFound),
            },
    {
        let n = self.0.len();
        let mut i: usize = 0;
        proof {
            assert(self.entries().skip(0) =~= self.entries());
        }
        while i < n
            invariant
                n == self.entries().len(),
                i <= n,
                spec_lookup_link(self.entries().skip(i as int), link_id) == spec_lookup_link(
                    self.entries(),
                    link_id,
                ),
            decreases n - i,
        {
            let p = &self.0[i];
            proof {
                assert(self.entries().skip(i as int)[0] == self.entries()[i as int]);
                assert(self.entries().skip(i as int).drop_first() =~= self.entries().skip(
                    i + 1,
                ));
            }
            let carries = match p.link {
                Some(l) => l == link_id,
                None => false,
            };
            if carries {
                return Ok(p.session);
            }
            i = i + 1;
        }
        proof {
            assert(self.entries().skip(n as int) =~= Seq::<Payload>::empty());
        }
        Err(UpstreamSessionNotFound)
    }

    /// How many entries the ledger holds.
    pub fn len(&self) -> (r: usize)
        ensures
            r == self.entries().len(),
    {
        self.0.len()
    }

    /// The entry at `i`, oldest first.
    pub fn entry(&self, i: usize) -> (r: &Payload)
        requires
            i < self.entries().len(),
        ensures
            *r == self.entries()[i as int],
    {
        &self.0[i]
    }

    /// Remove the entry carrying `link`; fails "not found" when it is absent,
    /// which also covers a second consumption of the same link.
    pub fn consume_link(self, link_id: TimeOrderedId) -> (r: Result<
        Self,
        UpstreamSessionNotFound,
    >)
        ensures
            (r matches Ok(l) ==> spec_consume_link(self.entries(), link_id) == Some(l.entries())
                && (self.wf() ==> l.wf())),
            r is Err <==> spec_consume_link(self.entries(), link_id) is None,
    {
        let mut this = self;
        let n = this.0.len();
        let mut i: usize = 0;
        while i < n
            invariant
                this == self,
                n == this.entries().len(),
                i <= n,
                forall|k: int| 0 <= k < i ==> (#[trigger] this.entries()[k]).link != Some(link_id),
            decreases n - i,
        {
            let carries = match this.0[i].link {
                Some(l) => l == link_id,
                None => false,
            };
            if carries {
                proof {
                    lemma_consume_link_at_first_index(this.entries(), link_id, i as int);
                }
                let ghost before = this.entries();
                this.0.remove(i);
                proof {
                    assert(this.entries() =~= before.remove(i as int));
                }
                return Ok(this);
            }
            i = i + 1;
        }
        proof {
            lemma_consume_link_no_match(this.entries(), link_id);
        }
        Err(UpstreamSessionNotFound)
    }
}

impl Default for UpstreamSessions {
    /// The empty ledger.
    fn default() -> (r: Self)
        ensures
            r.entries().len() == 0,
            r.wf(),
    {
        UpstreamSessions::new()
    }
}

/// When `j` is the first unlinked entry for `session`, linking updates
/// exactly that entry.
proof fn lemma_add_link_at_first_index(
    s: Seq<Payload>,
    session: TimeOrderedId,
    link: TimeOrderedId,
    j: int,
)
    requires
        0 <= j < s.len(),
        unlinked_for(s[j], session),
        forall|k: int| 0 <= k < j ==> !unlinked_for(#[trigger] s[k], session),
    ensures
        spec_add_link(s, session, link) == Some(s.update(j, with_link(s[j], link))),
    decreases j,
{
    if j == 0 {
        assert(s.update(0, with_link(s[0], link)) =~= seq![with_link(s[0], link)]
            + s.drop_first());
    } else {
        lemma_add_link_at_first_index(s.drop_first(), session, link, j - 1);
        assert(s.update(j, with_link(s[j], link)) =~= seq![s[0]] + s.drop_first().update(
            j - 1,
            with_link(s.drop_first()[j - 1], link),
        ));
    }
}

/// When no entry is unlinked for `session`, linking fails.
proof fn lemma_add_link_no_match(s: Seq<Payload>, session: TimeOrderedId, link: TimeOrderedId)
    requires
        forall|k: int| 0 <= k < s.len() ==> !unlinked_for(#[trigger] s[k], session),
    ensures
        spec_add_link(s, session, link) is None,
    decreases s.len(),
{
    if s.len() > 0 {
        lemma_add_link_no_match(s.drop_first(), session, link);
    }
}

/// When `j` is the first entry carrying `link`, consuming removes exactly
/// that entry.
proof fn lemma_consume_link_at_first_index(s: Seq<Payload>, link: TimeOrderedId, j: int)
    requires
        0 <= j < s.len(),
        s[j].link == Some(link),
        forall|k: int| 0 <= k < j ==> (#[trigger] s[k]).link != Some(link),
    ensures
        spec_consume_link(s, link) == Some(s.remove(j)),
    decreases j,
{
    if j == 0 {
        assert(s.remove(0) =~= s.drop_first());
    } else {
        lemma_consume_link_at_first_index(s.drop_first(), link, j - 1);
        assert(s.remove(j) =~= seq![s[0]] + s.drop_first().remove(j - 1));
    }
}

/// When no entry carries `link`, consuming fails.
proof fn lemma_consume_link_no_match(s: Seq<Payload>, link: TimeOrderedId)
    requires
        forall|k: int| 0 <= k < s.len() ==> (#[trigger] s[k]).link != Some(link),
    ensures
        spec_consume_link(s, link) is None,
    decreases s.len(),
{
    if s.len() > 0 {
        lemma_consume_link_no_match(s.drop_first(), link);
    }
}

/// Law: a session is reachable by `(provider, state)` only through an entry
/// that has not yet acquired a link; once linked, an entry can never again be
/// found by its provider and state.
pub proof fn lemma_find_session_only_unlinked(
    s: Seq<Payload>,
    provider: TimeOrderedId,
    state: Seq<char>,
)
    ensures
        spec_find_session(s, provider, state) matches Some(sid) ==> exists|i: int|
            0 <= i < s.len() && entry_matches(#[trigger] s[i], provider, state) && s[i].session
                == sid,
    decreases s.len(),
{
    if s.len() > 0 {
        if entry_matches(s[0], provider, state) {
        } else {
            lemma_find_session_only_unlinked(s.drop_first(), provider, state);
            if spec_find_session(s, provider, state) is Some {
                let sid = spec_find_session(s, provider, state)->Some_0;
                let i = choose|i: int|
                    0 <= i < s.drop_first().len() && entry_matches(
                        #[trigger] s.drop_first()[i],
                        provider,
                        state,
                    ) && s.drop_first()[i].session == sid;
                assert(s[i + 1] == s.drop_first()[i]);
            }
        }
    }
}

/// Law: when links are unique, a consumed link is gone for good — a second
/// consumption fails, and the link can no longer be looked up.
pub proof fn lemma_consume_link_single_use(s: Seq<Payload>, link: TimeOrderedId)
    requires
        links_unique(s),
    ensures
        spec_consume_link(s, link) matches Some(s2) ==> spec_consume_link(s2, link) is None
            && spec_lookup_link(s2, link) is None,
    decreases s.len(),
{
    if s.len() > 0 && spec_consume_link(s, link) is Some {
        let s2 = spec_consume_link(s, link)->Some_0;
        if s[0].link == Some(link) {
            assert(s2 =~= s.drop_first());
            assert(forall|k: int|
                0 <= k < s2.len() ==> (#[trigger] s2[k]).link != Some(link)) by {
                assert(forall|k: int| 0 <= k < s2.len() ==> s2[k] == s[k + 1]);
            }
            lemma_consume_link_no_match(s2, link);
            lemma_lookup_link_no_match(s2, link);
        } else {
            assert(links_unique(s.drop_first())) by {
                assert(forall|i: int, j: int|
                    0 <= i < j < s.drop_first().len() ==> s.drop_first()[i] == s[i + 1]
                        && s.drop_first()[j] == s[j + 1]);
            }
            lemma_consume_link_single_use(s.drop_first(), link);
            let t = spec_consume_link(s.drop_first(), link)->Some_0;
            assert(s2 == seq![s[0]] + t);
            assert(s2.drop_first() =~= t);
            assert(s2[0] == s[0]);
        }
    }
}

/// When no entry carries `link`, looking it up fails.
proof fn lemma_lookup_link_no_match(s: Seq<Payload>, link: TimeOrderedId)
    requires
        forall|k: int| 0 <= k < s.len() ==> (#[trigger] s[k]).link != Some(link),
    ensures
        spec_lookup_link(s, link) is None,
    decreases s.len(),
{
    if s.len() > 0 {
        lemma_lookup_link_no_match(s.drop_first(), link);
    }
}

/// Law: appending an unlinked entry, as `add` does, keeps links unique.
pub proof fn lemma_add_preserves_links_unique(s: Seq<Payload>, p: Payload)
    requires
        links_unique(s),
        p.link is None,
    ensures
        links_unique(s.push(p)),
{
    let s2 = s.push(p);
    assert forall|i: int, j: int|
        0 <= i < j < s2.len() && s2[i].link is Some && s2[j].link is Some implies s2[i].link
        != s2[j].link by {
        if j < s.len() {
            assert(s2[i] == s[i] && s2[j] == s[j]);
        } else {
            assert(s2[j] == p);
        }
    }
}

/// Linking updates exactly one entry: some unlinked one acquires the link.
proof fn lemma_add_link_shape(s: Seq<Payload>, session: TimeOrderedId, link: TimeOrderedId)
    ensures
        spec_add_link(s, session, link) matches Some(s2) ==> exists|j: int|
            0 <= j < s.len() && s[j].link is None && s2 == #[trigger] s.update(
                j,
                with_link(s[j], link),
            ),
    decreases s.len(),
{
    if s.len() > 0 && spec_add_link(s, session, link) is Some {
        let s2 = spec_add_link(s, session, link)->Some_0;
        if unlinked_for(s[0], session) {
            assert(s2 =~= s.update(0, with_link(s[0], link)));
        } else {
            lemma_add_link_shape(s.drop_first(), session, link);
            let t = spec_add_link(s.drop_first(), session, link)->Some_0;
            let j = choose|j: int|
                0 <= j < s.drop_first().len() && s.drop_first()[j].link is None && t
                    == #[trigger] s.drop_first().update(
                    j,
                    with_link(s.drop_first()[j], link),
                );
            assert(s2 == seq![s[0]] + t);
            assert(s[j + 1] == s.drop_first()[j]);
            assert(s2 =~= s.update(j + 1, with_link(s[j + 1], link)));
        }
    }
}

/// Law: recording a fresh link id, as `add_link_to_session` does, keeps
/// links unique.
pub proof fn lemma_add_link_preserves_links_unique(
    s: Seq<Payload>,
    session: TimeOrderedId,
    link: TimeOrderedId,
)
    requires
        links_unique(s),
        forall|k: int| 0 <= k < s.len() ==> (#[trigger] s[k]).link != Some(link),
    ensures
        spec_add_link(s, session, link) matches Some(s2) ==> links_unique(s2),
{
    if spec_add_link(s, session, link) is Some {
        let s2 = spec_add_link(s, session, link)->Some_0;
        lemma_add_link_shape(s, session, link);
        let u = choose|u: int|
            0 <= u < s.len() && s[u].link is None && s2 == #[trigger] s.update(
                u,
                with_link(s[u], link),
            );
        assert forall|i: int, j: int|
            0 <= i < j < s2.len() && s2[i].link is Some && s2[j].link is Some implies s2[i].link
            != s2[j].link by {
            if i == u {
                assert(s2[j] == s[j]);
            } else if j == u {
                assert(s2[i] == s[i]);
            } else {
                assert(s2[i] == s[i] && s2[j] == s[j]);
            }
        }
    }
}

/// Every entry that survives a consumption stood in the ledger before it.
proof fn lemma_consume_link_membership(s: Seq<Payload>, link: TimeOrderedId)
    ensures
        spec_consume_link(s, link) matches Some(s2) ==> forall|k: int|
            0 <= k < s2.len() ==> exists|m: int| 0 <= m < s.len() && s[m] == #[trigger] s2[k],
    decreases s.len(),
{
    if s.len() > 0 && spec_consume_link(s, link) is Some {
        let s2 = spec_consume_link(s, link)->Some_0;
        if s[0].link == Some(link) {
            assert(s2 =~= s.drop_first());
            assert(forall|k: int| 0 <= k < s2.len() ==> s[k + 1] == #[trigger] s2[k]);
        } else {
            lemma_consume_link_membership(s.drop_first(), link);
            let t = spec_consume_link(s.drop_first(), link)->Some_0;
            assert(s2 == seq![s[0]] + t);
            assert forall|k: int|
                0 <= k < s2.len() implies exists|m: int|
                0 <= m < s.len() && s[m] == #[trigger] s2[k] by {
                if k == 0 {
                    assert(s[0] == s2[0]);
                } else {
                    assert(s2[k] == t[k - 1]);
                    let m = choose|m: int|
                        0 <= m < s.drop_first().len() && s.drop_first()[m] == t[k - 1];
                    assert(s[m + 1] == s2[k]);
                }
            }
        }
    }
}

/// Law: consuming a link, as `consume_link` does, keeps links unique.
pub proof fn lemma_consume_preserves_links_unique(s: Seq<Payload>, link: TimeOrderedId)
    requires
        links_unique(s),
    ensures
        spec_consume_link(s, link) matches Some(s2) ==> links_unique(s2),
    decreases s.len(),
{
    if s.len() > 0 && spec_consume_link(s, link) is Some {
        let s2 = spec_consume_link(s, link)->Some_0;
        if s[0].link == Some(link) {
            assert(s2 =~= s.drop_first());
            assert(forall|k: int| 0 <= k < s2.len() ==> s[k + 1] == #[trigger] s2[k]);
        } else {
            assert(links_unique(s.drop_first())) by {
                assert(forall|k: int|
                    0 <= k < s.drop_first().len() ==> s[k + 1] == #[trigger] s.drop_first()[k]);
            }
            lemma_consume_preserves_links_unique(s.drop_first(), link);
            lemma_consume_link_membership(s.drop_first(), link);
            let t = spec_consume_link(s.drop_first(), link)->Some_0;
            assert(s2 == seq![s[0]] + t);
            assert forall|i: int, j: int|
                0 <= i < j < s2.len() && s2[i].link is Some && s2[j].link is Some implies s2[
                i].link != s2[j].link by {
                if i == 0 {
                    assert(s2[j] == t[j - 1]);
                    let m = choose|m: int|
                        0 <= m < s.drop_first().len() && s.drop_first()[m] == t[j - 1];
                    assert(s[m + 1] == s2[j]);
                    assert(s[0].link != s[m + 1].link);
                } else {
                    assert(s2[i] == t[i - 1] && s2[j] == t[j - 1]);
                }
            }
        }
    }
}

/// Law: linking a fresh link id to a session makes the session reachable by
/// that link.
pub proof fn lemma_link_then_lookup(s: Seq<Payload>, session: TimeOrderedId, link: TimeOrderedId)
    requires
        forall|k: int| 0 <= k < s.len() ==> (#[trigger] s[k]).link != Some(link),
    ensures
        spec_add_link(s, session, link) matches Some(s2) ==> spec_lookup_link(s2, link) == Some(
            session,
        ),
    decreases s.len(),
{
    if s.len() > 0 && spec_add_link(s, session, link) is Some {
        let s2 = spec_add_link(s, session, link)->Some_0;
        if unlinked_for(s[0], session) {
            assert(s2[0] == with_link(s[0], link));
        } else {
            lemma_link_then_lookup(s.drop_first(), session, link);
            let t = spec_add_link(s.drop_first(), session, link)->Some_0;
            assert(s2 == seq![s[0]] + t);
            assert(s2[0] == s[0]);
            assert(s2.drop_first() =~= t);
        }
    }
}

} // verus!
