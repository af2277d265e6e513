//! The tables that uploads share between requests: the sessions by their
//! id, and the entity tags that the storage returned for uploaded parts.
use vstd::prelude::*;
use vstd::hash_map::StringHashMap;
use vstd::string::*;
use crate::status::Status;
use crate::text::{chars_of, string_from_chars};
use crate::upload::{UploadSession, UploadState};

verus! {

broadcast use vstd::hash_map::group_hash_map_axioms;

/// The session id in an `Authorization` header value of the form
/// `Bearer <id>`; anything else (or no readable value) is refused.
pub open spec fn bearer_spec(value: Option<Seq<char>>) -> Result<Seq<char>, Status> {
    match value {
        Some(v) => if v.len() >= 7 && v.subrange(0, 7) == "Bearer "@ {
            Ok(v.subrange(7, v.len() as int))
        } else {
            Err(Status::BadRequest)
        },
        None => Err(Status::BadRequest),
    }
}

/// The session id of an `Authorization` header value (`None` when the
/// header is missing or not readable as text).
pub fn bearer_token(value: Option<&str>) -> (res: Result<String, Status>)
    ensures
        match (res, bearer_spec(crate::text::opt_str(value))) {
            (Ok(t), Ok(st)) => t@ == st,
            (Err(e), Err(se)) => e == se,
            _ => false,
        },
{
    match value {
        Some(v) => {
            proof {
                reveal_strlit("Bearer ");
            }
            if crate::text::starts_with(v, "Bearer ") {
                let cs = chars_of(v);
                Ok(string_from_chars(&cs, 7, cs.len()))
            } else {
                Err(Status::BadRequest)
            }
        },
        None => Err(Status::BadRequest),
    }
}

/// What the upload-session table holds, session by session.
pub open spec fn sessions_view(m: Map<Seq<char>, UploadSession>) -> Map<Seq<char>, UploadState> {
    Map::new(|k: Seq<char>| m.contains_key(k), |k: Seq<char>| m[k]@)
}

/// The upload sessions in progress, by session id.
pub struct UploadSessions {
    map: StringHashMap<UploadSession>,
}

/// What a lookup of the session named by an `Authorization` header value
/// answers and leaves: `BadRequest` for a malformed value, `Forbidden` for an
/// unknown session; a lookup that deletes removes the session it finds.
pub open spec fn lookup_spec(m: Map<Seq<char>, UploadState>, value: Option<Seq<char>>, delete: bool) -> (
    Map<Seq<char>, UploadState>,
    Result<(UploadState, Seq<char>), Status>,
) {
    match bearer_spec(value) {
        Err(e) => (m, Err(e)),
        Ok(id) => if !m.contains_key(id) {
            (m, Err(Status::Forbidden))
        } else if delete {
            (m.remove(id), Ok((m[id], id)))
        } else {
            (m, Ok((m[id], id)))
        },
    }
}

impl UploadSessions {
    /// The sessions, by id.
    pub closed spec fn view(&self) -> Map<Seq<char>, UploadState> {
        sessions_view(self.map@)
    }

    /// No uploads in progress.
    pub fn new() -> (res: Self)
        ensures
            res.view() == Map::<Seq<char>, UploadState>::empty(),
    {
        let res = UploadSessions { map: StringHashMap::new() };
        assert(res.view() =~= Map::<Seq<char>, UploadState>::empty());
        res
    }

    /// Stores `session` under `id`, replacing any session stored there.
    pub fn write(&mut self, session: UploadSession, id: String)
        ensures
            final(self).view() == old(self).view().insert(id@, session@),
    {
        self.map.insert(id, session);
        assert(self.view() =~= old(self).view().insert(id@, session@));
    }

    /// The session named by an `Authorization` header value and its id; with
    /// `delete` the session is also removed.
    pub fn lookup(&mut self, value: Option<&str>, delete: bool) -> (res: Result<(UploadSession, String), Status>)
        ensures
            ({
                let (m, r) = lookup_spec(old(self).view(), crate::text::opt_str(value), delete);
                &&& final(self).view() == m
                &&& match (res, r) {
                    (Ok((s, id)), Ok((ss, sid))) => s@ == ss && id@ == sid,
                    (Err(e), Err(se)) => e == se,
                    _ => false,
                }
            }),
    {
        let id = match bearer_token(value) {
            Ok(id) => id,
            Err(e) => return Err(e),
        };
        let found = match self.map.get(id.as_str()) {
            Some(s) => s.duplicate(),
            None => return Err(Status::Forbidden),
        };
        if delete {
            self.map.remove(id.as_str());
            assert(self.view() =~= old(self).view().remove(id@));
        }
        Ok((found, id))
    }
}

/// The entity tags of uploaded parts, by the name under which each part
/// waited for it; an empty tag records a failed part upload.
pub struct PartEtags {
    map: StringHashMap<String>,
}

/// How the parts of an upload stand: every one has a tag; some part has
/// none yet; or the first part without a usable tag failed.
#[derive(Debug, Clone, Copy, PartialEq, Eq, Structural)]
pub enum EtagScan {
    Ready,
    Pending,
    Failed,
}

/// How the parts named `names[i..]` stand: by the first one that has no
/// tag (`Pending`) or an empty tag (`Failed`), else `Ready`.
pub open spec fn scan_from(tags: Map<Seq<char>, Seq<char>>, names: Seq<Seq<char>>, i: int) -> EtagScan
    decreases names.len() - i,
{
    if i >= names.len() {
        EtagScan::Ready
    } else if !tags.contains_key(names[i]) {
        EtagScan::Pending
    } else if tags[names[i]].len() == 0 {
        EtagScan::Failed
    } else {
        scan_from(tags, names, i + 1)
    }
}

/// What waiting for the parts of an upload does next, given how many
/// checks found a part still pending before and how the parts stand now.
#[derive(Debug, Clone, Copy, PartialEq, Eq, Structural)]
pub enum WaitStep {
    Proceed,
    Retry,
    Abort,
}

/// The number of times a pending part may be found before the wait gives up.
pub const MAX_PENDING_CHECKS: u32 = 60;

/// The next step of the wait, and the pending-check count after it: pending
/// parts are checked again until more than `MAX_PENDING_CHECKS` checks found
/// one; a failed part aborts.
pub open spec fn wait_step_spec(pending_checks: u32, scan: EtagScan) -> (WaitStep, int) {
    match scan {
        EtagScan::Ready => (WaitStep::Proceed, pending_checks as int),
        EtagScan::Failed => (WaitStep::Abort, pending_checks as int),
        EtagScan::Pending => if pending_checks + 1 > MAX_PENDING_CHECKS {
            (WaitStep::Abort, pending_checks + 1)
        } else {
            (WaitStep::Retry, pending_checks + 1)
        },
    }
}

/// The next step of waiting for the parts of an upload.
pub fn wait_step(pending_checks: u32, scan: EtagScan) -> (res: (WaitStep, u32))
    requires
        pending_checks <= MAX_PENDING_CHECKS,
    ensures
        (res.0, res.1 as int) == wait_step_spec(pending_checks, scan),
{
    match scan {
        EtagScan::Ready => (WaitStep::Proceed, pending_checks),
        EtagScan::Failed => (WaitStep::Abort, pending_checks),
        EtagScan::Pending => {
            let count = pending_checks + 1;
            if count > MAX_PENDING_CHECKS {
                (WaitStep::Abort, count)
            } else {
                (WaitStep::Retry, count)
            }
        },
    }
}

impl PartEtags {
    /// The tags, by part name.
    pub closed spec fn view(&self) -> Map<Seq<char>, Seq<char>> {
        Map::new(|k: Seq<char>| self.map@.contains_key(k), |k: Seq<char>| self.map@[k]@)
    }

    /// No tags.
    pub fn new() -> (res: Self)
        ensures
            res.view() == Map::<Seq<char>, Seq<char>>::empty(),
    {
        let res = PartEtags { map: StringHashMap::new() };
        assert(res.view() =~= Map::<Seq<char>, Seq<char>>::empty());
        res
    }

    /// Records the tag of the part that waited under `name`.
    pub fn insert(&mut self, name: String, etag: String)
        ensures
            final(self).view() == old(self).view().insert(name@, etag@),
    {
        self.map.insert(name, etag);
        assert(self.view() =~= old(self).view().insert(name@, etag@));
    }

    /// The tag recorded under `name`.
    pub fn get(&self, name: &str) -> (res: Option<String>)
        ensures
            match res {
                Some(t) => self.view().contains_key(name@) && t@ == self.view()[name@],
                None => !self.view().contains_key(name@),
            },
    {
        match self.map.get(name) {
            Some(t) => Some(String::from_str(t.as_str())),
            None => None,
        }
    }

    /// How the parts named `names` stand.
    pub fn scan(&self, names: &Vec<String>) -> (res: EtagScan)
        ensures
            res == scan_from(self.view(), crate::upload::strings_view(names@), 0),
    {
        let ghost ns = crate::upload::strings_view(names@);
        let mut i: usize = 0;
        while i < names.len()
            invariant
                0 <= i <= names@.len(),
                ns == crate::upload::strings_view(names@),
                scan_from(self.view(), ns, 0) == scan_from(self.view(), ns, i as int),
            decreases names.len() - i,
        {
            assert(ns[i as int] == names@[i as int]@);
            match self.map.get(names[i].as_str()) {
                None => {
                    return EtagScan::Pending;
                },
                Some(t) => {
                    if t.as_str().is_empty() {
                        return EtagScan::Failed;
                    }
                },
            }
            i = i + 1;
        }
        EtagScan::Ready
    }
}

/// A session stored under an id is what a lookup by the `Bearer` header
/// of that id returns.
pub proof fn lemma_write_then_lookup(m: Map<Seq<char>, UploadState>, id: Seq<char>, st: UploadState, delete: bool)
    ensures
        lookup_spec(m.insert(id, st), Some("Bearer "@ + id), delete).1 == Ok::<(UploadState, Seq<char>), Status>((st, id)),
{
    reveal_strlit("Bearer ");
    let v = "Bearer "@ + id;
    assert(v.subrange(0, 7) =~= "Bearer "@);
    assert(v.subrange(7, v.len() as int) =~= id);
}

/// A lookup that deletes leaves no session under the id it found.
pub proof fn lemma_delete_lookup_removes(m: Map<Seq<char>, UploadState>, value: Option<Seq<char>>)
    requires
        lookup_spec(m, value, true).1 is Ok,
    ensures
        !lookup_spec(m, value, true).0.contains_key(lookup_spec(m, value, true).1->Ok_0.1),
{
}

/// Once every part has a non-empty tag, the wait proceeds.
pub proof fn lemma_all_tagged_ready(tags: Map<Seq<char>, Seq<char>>, names: Seq<Seq<char>>, i: int)
    requires
        0 <= i,
        forall|j: int| i <= j < names.len() ==> tags.contains_key(#[trigger] names[j]) && tags[names[j]].len() > 0,
    ensures
        scan_from(tags, names, i) == EtagScan::Ready,
    decreases names.len() - i,
{
    if i < names.len() {
        lemma_all_tagged_ready(tags, names, i + 1);
    }
}

/// The wait ends: a part still pending after sixty checks aborts it.
pub proof fn lemma_wait_bounded(pending_checks: u32)
    requires
        pending_checks >= MAX_PENDING_CHECKS,
    ensures
        wait_step_spec(pending_checks, EtagScan::Pending).0 == WaitStep::Abort,
{
}

/// While fewer than `MAX_PENDING_CHECKS` checks found a part pending, a
/// pending part is checked again and counted; parts that all have tags let
/// the wait go on and a failed part ends it, whatever the count.
pub proof fn lemma_wait_retries(pending_checks: u32)
    ensures
        pending_checks < MAX_PENDING_CHECKS ==> wait_step_spec(pending_checks, EtagScan::Pending) == (
            WaitStep::Retry,
            pending_checks + 1,
        ),
        wait_step_spec(pending_checks, EtagScan::Ready).0 == WaitStep::Proceed,
        wait_step_spec(pending_checks, EtagScan::Failed).0 == WaitStep::Abort,
{
}

} // verus!
