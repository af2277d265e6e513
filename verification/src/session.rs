//! Login sessions: created at login with a twelve-hour lifetime, looked up
//! by their id from a bearer token or the `SID` cookie, dropped once expired.
use vstd::prelude::*;
use vstd::hash_map::StringHashMap;
use vstd::string::*;
use crate::encoding::{base64_url_no_pad, encode_base64_url_no_pad};

verus! {

broadcast use vstd::hash_map::group_hash_map_axioms;

/// A point in UTC time: seconds since the epoch and the nanoseconds within
/// that second.
#[derive(Clone, Copy, Debug, PartialEq, Eq, Structural)]
pub struct Instant {
    pub secs: i64,
    pub nanos: u32,
}

/// `a` is strictly earlier than `b`.
pub open spec fn earlier(a: Instant, b: Instant) -> bool {
    a.secs < b.secs || (a.secs == b.secs && a.nanos < b.nanos)
}

/// The last second that a UTC date-time can hold.
pub open spec fn max_utc_secs() -> int {
    8_210_266_876_799
}

/// How long a login session lasts, in seconds (twelve hours).
pub const SESSION_LIFETIME_SECS: i64 = 43200;

/// `at` moved forward by a session lifetime.
pub open spec fn plus_lifetime(at: Instant) -> Instant {
    Instant { secs: (at.secs + SESSION_LIFETIME_SECS) as i64, nanos: at.nanos }
}

/// A logged-in user's session.
#[derive(Clone, Copy, Debug, PartialEq, Eq, Structural)]
pub struct Session {
    pub user_id: i64,
    pub login_at: Instant,
    pub expires_at: Instant,
}

/// Whether `a` is strictly earlier than `b`.
pub fn is_earlier(a: &Instant, b: &Instant) -> (res: bool)
    ensures
        res == earlier(*a, *b),
{
    a.secs < b.secs || (a.secs == b.secs && a.nanos < b.nanos)
}

/// The current UTC time: `chrono::Utc::now()` read with `timestamp` and
/// `timestamp_subsec_nanos`. Claimed, from the crate's source: the time is
/// not before the epoch, lies within the range of a `DateTime<Utc>`, and its
/// nanoseconds are below one second. Which time it is depends on the clock.
#[verifier::external_body]
pub(crate) fn current_instant() -> (now: Instant)
    ensures
        0 <= now.secs <= max_utc_secs(),
        now.nanos < 1_000_000_000,
{
    let now = chrono::Utc::now();
    Instant { secs: now.timestamp(), nanos: now.timestamp_subsec_nanos() }
}

/// 32 random bytes: `rand::random::<[u8; 32]>()`. Nothing is claimed of
/// their values.
#[verifier::external_body]
pub(crate) fn random_32_bytes() -> [u8; 32] {
    rand::random::<[u8; 32]>()
}

/// A fresh session id: 32 random bytes in URL-safe Base64 without padding.
pub fn new_session_id() -> (id: String)
    ensures
        exists|b: Seq<u8>| b.len() == 32 && id@ == base64_url_no_pad(b),
{
    let bytes = random_32_bytes();
    let slice = bytes.as_slice();
    let id = encode_base64_url_no_pad(slice);
    assert(slice@.len() == 32 && id@ == base64_url_no_pad(slice@));
    id
}

/// The sessions that remain when those expired before `now` are dropped.
pub open spec fn unexpired(m: Map<Seq<char>, Session>, now: Instant) -> Map<Seq<char>, Session> {
    Map::new(|k: Seq<char>| m.contains_key(k) && !earlier(m[k].expires_at, now), |k: Seq<char>| m[k])
}

/// The sessions after a login of `user_id` at `now` with id `sid`: expired
/// sessions are dropped and the new one is added.
pub open spec fn login_spec(m: Map<Seq<char>, Session>, user_id: i64, now: Instant, sid: Seq<char>) -> Map<
    Seq<char>,
    Session,
> {
    unexpired(m, now).insert(sid, Session { user_id, login_at: now, expires_at: plus_lifetime(now) })
}

/// `after` is `before` with `user_id` logged in at some time under `id`, an
/// id that is the URL-safe Base64 text of 32 bytes.
pub open spec fn fresh_login(
    before: Map<Seq<char>, Session>,
    after: Map<Seq<char>, Session>,
    user_id: i64,
    id: Seq<char>,
) -> bool {
    exists|now: Instant, bytes: Seq<u8>|
        bytes.len() == 32 && id == base64_url_no_pad(bytes) && after == login_spec(before, user_id, now, id)
}

/// What a lookup of `sid` at `now` finds, and the sessions afterwards: a
/// session that has not expired (its expiry is after `now`) is returned; an
/// expired one is removed.
pub open spec fn active_spec(m: Map<Seq<char>, Session>, sid: Seq<char>, now: Instant) -> (
    Map<Seq<char>, Session>,
    Option<Session>,
) {
    if !m.contains_key(sid) {
        (m, None)
    } else if earlier(now, m[sid].expires_at) {
        (m, Some(m[sid]))
    } else {
        (m.remove(sid), None)
    }
}

/// What a request presenting an optional bearer token and an optional `SID`
/// cookie is logged in as: the bearer token is tried first, the cookie
/// after it when the token finds no active session.
pub open spec fn request_session_spec(
    m: Map<Seq<char>, Session>,
    bearer: Option<Seq<char>>,
    cookie: Option<Seq<char>>,
    now: Instant,
) -> (Map<Seq<char>, Session>, Option<Session>) {
    let (m1, by_bearer) = match bearer {
        Some(t) => active_spec(m, t, now),
        None => (m, None),
    };
    if by_bearer is Some {
        (m1, by_bearer)
    } else {
        match cookie {
            Some(c) => active_spec(m1, c, now),
            None => (m1, None),
        }
    }
}

/// The login sessions, by session id.
pub struct LoginSessions {
    map: StringHashMap<Session>,
    ids: Vec<String>,
}

impl LoginSessions {
    /// The sessions, by id.
    pub closed spec fn view(&self) -> Map<Seq<char>, Session> {
        self.map@
    }

    /// The id list names each stored session once.
    pub closed spec fn wf(&self) -> bool {
        &&& forall|i: int| 0 <= i < self.ids@.len() ==> self.map@.contains_key(#[trigger] self.ids@[i]@)
        &&& forall|k: Seq<char>| #[trigger] self.map@.contains_key(k) ==> exists|i: int|
            0 <= i < self.ids@.len() && #[trigger] self.ids@[i]@ == k
        &&& forall|i: int, j: int|
            0 <= i < j < self.ids@.len() ==> (#[trigger] self.ids@[i])@ != (#[trigger] self.ids@[j])@
    }

    /// No sessions.
    pub fn new() -> (res: Self)
        ensures
            res.wf(),
            res.view() == Map::<Seq<char>, Session>::empty(),
    {
        LoginSessions { map: StringHashMap::new(), ids: Vec::new() }
    }

    /// Looks up session `sid` at time `now`: a session that expires after
    /// `now` is returned; an expired one is removed and `None` returned.
    pub fn active_session_at(&mut self, sid: &str, now: Instant) -> (res: Option<Session>)
        requires
            old(self).wf(),
        ensures
            final(self).wf(),
            (final(self).view(), res) == active_spec(old(self).view(), sid@, now),
    {
        match self.map.get(sid) {
            None => None,
            Some(s) => {
                let session = *s;
                if is_earlier(&now, &session.expires_at) {
                    Some(session)
                } else {
                    self.remove_id(sid);
                    None
                }
            },
        }
    }

    /// The session of a request at `now`: the bearer token's if it names an
    /// active session, else the `SID` cookie's.
    pub fn request_session_at(&mut self, bearer: Option<&str>, cookie_sid: Option<&str>, now: Instant) -> (res:
        Option<Session>)
        requires
            old(self).wf(),
        ensures
            final(self).wf(),
            (final(self).view(), res) == request_session_spec(
                old(self).view(),
                crate::text::opt_str(bearer),
                crate::text::opt_str(cookie_sid),
                now,
            ),
    {
        if let Some(token) = bearer {
            if let Some(s) = self.active_session_at(token, now) {
                return Some(s);
            }
        }
        match cookie_sid {
            Some(c) => self.active_session_at(c, now),
            None => None,
        }
    }

    /// Logs `user_id` in at `now` under id `sid`: sessions that expired before
    /// `now` are dropped, then the new session, which expires twelve hours
    /// after `now`, is stored. Returns the id.
    pub fn login_at(&mut self, user_id: i64, now: Instant, sid: String) -> (res: String)
        requires
            old(self).wf(),
            now.secs + SESSION_LIFETIME_SECS <= max_utc_secs(),
        ensures
            final(self).wf(),
            final(self).view() == login_spec(old(self).view(), user_id, now, sid@),
            res@ == sid@,
    {
        self.drop_expired(now);
        let session = Session {
            user_id,
            login_at: now,
            expires_at: Instant { secs: now.secs + SESSION_LIFETIME_SECS, nanos: now.nanos },
        };
        let id = String::from_str(sid.as_str());
        self.insert_session(sid, session);
        id
    }

    /// Logs `user_id` in at clock reading `now` under id `sid`: refused, with
    /// the reading and nothing changed, exactly when the session's expiry
    /// time (twelve hours after `now`) cannot be represented; otherwise as
    /// `login_at`.
    pub fn login_with(&mut self, user_id: i64, now: Instant, sid: String) -> (res: Result<String, Instant>)
        requires
            old(self).wf(),
        ensures
            final(self).wf(),
            res is Err <==> now.secs + SESSION_LIFETIME_SECS > max_utc_secs(),
            res matches Err(t) ==> t == now && final(self).view() == old(self).view(),
            res matches Ok(id) ==> id@ == sid@ && final(self).view() == login_spec(old(self).view(), user_id, now, sid@),
    {
        if now.secs > 8_210_266_876_799 - SESSION_LIFETIME_SECS {
            return Err(now);
        }
        Ok(self.login_at(user_id, now, sid))
    }

    /// Logs `user_id` in now under a fresh id made of 32 random bytes in
    /// URL-safe Base64: the clock and the random id are read and handed to
    /// `login_with`. Refused, with the clock reading and nothing changed,
    /// only when the clock is so far ahead that the session's expiry time
    /// cannot be represented.
    pub fn login(&mut self, user_id: i64) -> (res: Result<String, Instant>)
        requires
            old(self).wf(),
        ensures
            final(self).wf(),
            match res {
                Ok(id) => fresh_login(old(self).view(), final(self).view(), user_id, id@),
                Err(now) => {
                    &&& final(self).view() == old(self).view()
                    &&& 0 <= now.secs <= max_utc_secs()
                    &&& now.secs + SESSION_LIFETIME_SECS > max_utc_secs()
                },
            },
    {
        let now = current_instant();
        let sid = new_session_id();
        let ghost raw = choose|b: Seq<u8>| b.len() == 32 && sid@ == base64_url_no_pad(b);
        let res = self.login_with(user_id, now, sid);
        proof {
            if let Ok(id) = &res {
                assert(raw.len() == 32 && id@ == base64_url_no_pad(raw) && self.view() == login_spec(
                    old(self).view(),
                    user_id,
                    now,
                    id@,
                ));
                assert(fresh_login(old(self).view(), self.view(), user_id, id@));
            }
        }
        res
    }

    /// Looks up session `sid` now (see `active_session_at`).
    pub fn active_session(&mut self, sid: &str) -> (res: Option<Session>)
        requires
            old(self).wf(),
        ensures
            final(self).wf(),
            exists|now: Instant| (final(self).view(), res) == active_spec(old(self).view(), sid@, now),
    {
        let now = current_instant();
        self.active_session_at(sid, now)
    }

    /// The session of a request now (see `request_session_at`).
    pub fn request_session(&mut self, bearer: Option<&str>, cookie_sid: Option<&str>) -> (res: Option<Session>)
        requires
            old(self).wf(),
        ensures
            final(self).wf(),
            exists|now: Instant|
                (final(self).view(), res) == request_session_spec(
                    old(self).view(),
                    crate::text::opt_str(bearer),
                    crate::text::opt_str(cookie_sid),
                    now,
                ),
    {
        let now = current_instant();
        self.request_session_at(bearer, cookie_sid, now)
    }

    fn insert_session(&mut self, sid: String, session: Session)
        requires
            old(self).wf(),
        ensures
            final(self).wf(),
            final(self).view() == old(self).view().insert(sid@, session),
    {
        if self.map.contains_key(sid.as_str()) {
            let ghost key = sid@;
            self.map.insert(sid, session);
            proof {
                assert forall|k: Seq<char>| #[trigger] self.map@.contains_key(k) implies exists|a: int|
                    0 <= a < self.ids@.len() && #[trigger] self.ids@[a]@ == k by {
                    assert(old(self).map@.contains_key(k));
                    let a = choose|a: int| 0 <= a < old(self).ids@.len() && #[trigger] old(self).ids@[a]@ == k;
                    assert(self.ids@[a]@ == k);
                }
            }
        } else {
            let id = String::from_str(sid.as_str());
            self.map.insert(sid, session);
            self.ids.push(id);
            proof {
                let old_ids = old(self).ids@;
                assert forall|a: int| 0 <= a < self.ids@.len() implies self.map@.contains_key(#[trigger] self.ids@[a]@) by {
                    if a < old_ids.len() {
                        assert(self.ids@[a] == old_ids[a]);
                    }
                }
                assert forall|k: Seq<char>| #[trigger] self.map@.contains_key(k) implies exists|a: int|
                    0 <= a < self.ids@.len() && #[trigger] self.ids@[a]@ == k by {
                    if k == id@ {
                        assert(self.ids@[old_ids.len() as int]@ == k);
                    } else {
                        assert(old(self).map@.contains_key(k));
                        let a = choose|a: int| 0 <= a < old_ids.len() && #[trigger] old_ids[a]@ == k;
                        assert(self.ids@[a] == old_ids[a]);
                    }
                }
                assert forall|a: int, b: int| 0 <= a < b < self.ids@.len() implies (#[trigger] self.ids@[a])@
                    != (#[trigger] self.ids@[b])@ by {
                    if b < old_ids.len() {
                        assert(self.ids@[a] == old_ids[a]);
                        assert(self.ids@[b] == old_ids[b]);
                    } else {
                        assert(self.ids@[a] == old_ids[a]);
                        assert(old(self).map@.contains_key(old_ids[a]@));
                    }
                }
            }
        }
    }

    /// Drops the sessions that expired before `now`.
    fn drop_expired(&mut self, now: Instant)
        requires
            old(self).wf(),
        ensures
            final(self).wf(),
            final(self).view() == unexpired(old(self).view(), now),
    {
        let mut kept: StringHashMap<Session> = StringHashMap::new();
        let mut kept_ids: Vec<String> = Vec::new();
        let mut i: usize = 0;
        while i < self.ids.len()
            invariant
                0 <= i <= self.ids@.len(),
                self.wf(),
                self.map@ == old(self).map@,
                self.ids@ == old(self).ids@,
                forall|k: Seq<char>| #[trigger] kept@.contains_key(k) <==> (
                    (exists|j: int| 0 <= j < i && #[trigger] self.ids@[j]@ == k)
                    && !earlier(self.map@[k].expires_at, now)),
                forall|k: Seq<char>| #[trigger] kept@.contains_key(k) ==> kept@[k] == self.map@[k],
                forall|a: int| 0 <= a < kept_ids@.len() ==> kept@.contains_key(#[trigger] kept_ids@[a]@),
                forall|k: Seq<char>| #[trigger] kept@.contains_key(k) ==> exists|a: int|
                    0 <= a < kept_ids@.len() && #[trigger] kept_ids@[a]@ == k,
                forall|a: int, b: int| 0 <= a < b < kept_ids@.len() ==> (#[trigger] kept_ids@[a])@
                    != (#[trigger] kept_ids@[b])@,
            decreases self.ids.len() - i,
        {
            let id = &self.ids[i];
            let ghost k = id@;
            assert(self.map@.contains_key(k));
            let session = *self.map.get(id.as_str()).unwrap();
            if !is_earlier(&session.expires_at, &now) {
                let id_copy = String::from_str(id.as_str());
                let id_key = String::from_str(id.as_str());
                proof {
                    assert(!kept@.contains_key(k)) by {
                        if kept@.contains_key(k) {
                            let j = choose|j: int| 0 <= j < i && #[trigger] self.ids@[j]@ == k;
                            assert(self.ids@[j]@ != self.ids@[i as int]@);
                        }
                    }
                }
                let ghost kept_before = kept@;
                let ghost ids_before = kept_ids@;
                kept.insert(id_key, session);
                kept_ids.push(id_copy);
                proof {
                    assert forall|kk: Seq<char>| #[trigger] kept@.contains_key(kk) <==> (
                        (exists|j: int| 0 <= j < i + 1 && #[trigger] self.ids@[j]@ == kk)
                        && !earlier(self.map@[kk].expires_at, now)) by {
                        if kk == k {
                            assert(self.ids@[i as int]@ == kk);
                        } else if kept@.contains_key(kk) {
                            assert(kept_before.contains_key(kk));
                        } else if exists|j: int| 0 <= j < i + 1 && #[trigger] self.ids@[j]@ == kk {
                            let j = choose|j: int| 0 <= j < i + 1 && #[trigger] self.ids@[j]@ == kk;
                            assert(j < i);
                        }
                    }
                    assert forall|a: int| 0 <= a < kept_ids@.len() implies kept@.contains_key(#[trigger] kept_ids@[a]@) by {
                        if a < ids_before.len() {
                            assert(kept_ids@[a] == ids_before[a]);
                        }
                    }
                    assert forall|kk: Seq<char>| #[trigger] kept@.contains_key(kk) implies exists|a: int|
                        0 <= a < kept_ids@.len() && #[trigger] kept_ids@[a]@ == kk by {
                        if kk == k {
                            assert(kept_ids@[ids_before.len() as int]@ == kk);
                        } else {
                            assert(kept_before.contains_key(kk));
                            let a = choose|a: int| 0 <= a < ids_before.len() && #[trigger] ids_before[a]@ == kk;
                            assert(kept_ids@[a] == ids_before[a]);
                        }
                    }
                    assert forall|a: int, b: int| 0 <= a < b < kept_ids@.len() implies (#[trigger] kept_ids@[a])@
                        != (#[trigger] kept_ids@[b])@ by {
                        assert(kept_ids@[a] == ids_before[a]);
                        if b < ids_before.len() {
                            assert(kept_ids@[b] == ids_before[b]);
                        } else {
                            assert(kept_before.contains_key(ids_before[a]@));
                        }
                    }
                }
            } else {
                proof {
                    assert forall|kk: Seq<char>| #[trigger] kept@.contains_key(kk) <==> (
                        (exists|j: int| 0 <= j < i + 1 && #[trigger] self.ids@[j]@ == kk)
                        && !earlier(self.map@[kk].expires_at, now)) by {
                        if exists|j: int| 0 <= j < i + 1 && #[trigger] self.ids@[j]@ == kk {
                            let j = choose|j: int| 0 <= j < i + 1 && #[trigger] self.ids@[j]@ == kk;
                            if j == i {
                                assert(kk == k);
                            }
                        }
                    }
                }
            }
            i = i + 1;
        }
        proof {
            assert(kept@ =~= unexpired(old(self).map@, now));
        }
        self.map = kept;
        self.ids = kept_ids;
        assert(self.wf());
    }

    fn remove_id(&mut self, sid: &str)
        requires
            old(self).wf(),
        ensures
            final(self).wf(),
            final(self).view() == old(self).view().remove(sid@),
    {
        self.map.remove(sid);
        let target = String::from_str(sid);
        let mut i: usize = 0;
        while i < self.ids.len()
            invariant
                0 <= i <= self.ids@.len(),
                self.map@ == old(self).map@.remove(sid@),
                self.ids@ == old(self).ids@,
                target@ == sid@,
                old(self).wf(),
                forall|j: int| 0 <= j < i ==> (#[trigger] self.ids@[j])@ != sid@,
            decreases self.ids.len() - i,
        {
            if self.ids[i] == target {
                self.ids.remove(i);
                proof {
                    let old_ids = old(self).ids@;
                    assert forall|a: int| 0 <= a < self.ids@.len() implies self.map@.contains_key(#[trigger] self.ids@[a]@) by {
                        if a < i {
                            assert(self.ids@[a] == old_ids[a]);
                        } else {
                            assert(self.ids@[a] == old_ids[a + 1]);
                        }
                    }
                    assert forall|k: Seq<char>| #[trigger] self.map@.contains_key(k) implies exists|a: int|
                        0 <= a < self.ids@.len() && #[trigger] self.ids@[a]@ == k by {
                        let a = choose|a: int| 0 <= a < old_ids.len() && #[trigger] old_ids[a]@ == k;
                        if a < i {
                            assert(self.ids@[a] == old_ids[a]);
                        } else {
                            assert(self.ids@[a - 1] == old_ids[a]);
                        }
                    }
                    assert forall|a: int, b: int| 0 <= a < b < self.ids@.len() implies (#[trigger] self.ids@[a])@
                        != (#[trigger] self.ids@[b])@ by {
                        let oa = if a < i { a } else { a + 1 };
                        let ob = if b < i { b } else { b + 1 };
                        assert(self.ids@[a] == old_ids[oa]);
                        assert(self.ids@[b] == old_ids[ob]);
                    }
                }
                return;
            }
            i = i + 1;
        }
        proof {
            assert forall|k: Seq<char>| #[trigger] self.map@.contains_key(k) implies exists|a: int|
                0 <= a < self.ids@.len() && #[trigger] self.ids@[a]@ == k by {
                assert(old(self).map@.contains_key(k));
            }
        }
    }
}

/// A session created at login is found by its id at any time from the
/// login until twelve hours later, with the user and times it was made with.
pub proof fn lemma_login_then_lookup(
    m: Map<Seq<char>, Session>,
    user_id: i64,
    now: Instant,
    sid: Seq<char>,
    t: Instant,
)
    requires
        now.secs + SESSION_LIFETIME_SECS <= max_utc_secs(),
        !earlier(t, now),
        earlier(t, plus_lifetime(now)),
    ensures
        active_spec(login_spec(m, user_id, now, sid), sid, t) == (
            login_spec(m, user_id, now, sid),
            Some(Session { user_id, login_at: now, expires_at: plus_lifetime(now) }),
        ),
{
}

/// From twelve hours after login on, the session is no longer found, and
/// the lookup removes it.
pub proof fn lemma_login_expires(m: Map<Seq<char>, Session>, user_id: i64, now: Instant, sid: Seq<char>, t: Instant)
    requires
        now.secs + SESSION_LIFETIME_SECS <= max_utc_secs(),
        !earlier(t, plus_lifetime(now)),
    ensures
        active_spec(login_spec(m, user_id, now, sid), sid, t).1 is None,
        !active_spec(login_spec(m, user_id, now, sid), sid, t).0.contains_key(sid),
{
}

/// After a login at `now`, no stored session expired before `now`.
pub proof fn lemma_login_drops_expired(m: Map<Seq<char>, Session>, user_id: i64, now: Instant, sid: Seq<char>)
    requires
        now.secs + SESSION_LIFETIME_SECS <= max_utc_secs(),
    ensures
        forall|k: Seq<char>| #[trigger] login_spec(m, user_id, now, sid).contains_key(k) ==> !earlier(
            login_spec(m, user_id, now, sid)[k].expires_at,
            now,
        ),
{
}

/// A login changes no other session that is still valid at `now`.
pub proof fn lemma_login_keeps_others(
    m: Map<Seq<char>, Session>,
    user_id: i64,
    now: Instant,
    sid: Seq<char>,
    other: Seq<char>,
)
    requires
        other != sid,
        m.contains_key(other),
        !earlier(m[other].expires_at, now),
    ensures
        login_spec(m, user_id, now, sid).contains_key(other),
        login_spec(m, user_id, now, sid)[other] == m[other],
{
}

/// A lookup that finds a session leaves the sessions as they were, so a
/// second lookup at the same time finds it again.
pub proof fn lemma_lookup_repeats(m: Map<Seq<char>, Session>, sid: Seq<char>, now: Instant)
    requires
        active_spec(m, sid, now).1 is Some,
    ensures
        active_spec(m, sid, now).0 == m,
        active_spec(active_spec(m, sid, now).0, sid, now) == active_spec(m, sid, now),
{
}

/// A bearer token that names an active session decides the request's
/// session; the cookie is not consulted.
pub proof fn lemma_bearer_first(
    m: Map<Seq<char>, Session>,
    token: Seq<char>,
    cookie: Option<Seq<char>>,
    now: Instant,
)
    requires
        active_spec(m, token, now).1 is Some,
    ensures
        request_session_spec(m, Some(token), cookie, now) == active_spec(m, token, now),
{
}

} // verus!
