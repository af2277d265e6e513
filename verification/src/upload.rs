//! Uploads in parts: the state kept between the requests of one upload and
//! the decisions taken on each of them.
use vstd::prelude::*;
use vstd::string::*;
use crate::decimal::{nat_digits, u64_to_decimal};
use crate::status::Status;
use crate::session::Instant;
use sha2::Digest;

verus! {

/// The SHA-256 digest of `data`.
pub uninterp spec fn sha256(data: Seq<u8>) -> Seq<u8>;

/// A running SHA-256 computation over the bytes of an upload. The `sha2`
/// hasher type cannot be declared to the verifier (it is a generic wrapper
/// over digest cores), so it is held here out of its sight, and described
/// by the bytes fed to it so far.
#[verifier::external_body]
pub struct Hasher {
    state: sha2::Sha256,
}

/// The bytes fed to a hasher so far.
pub uninterp spec fn hasher_input(h: Hasher) -> Seq<u8>;

impl Hasher {
    /// A hasher that has been fed nothing: `sha2::Sha256::new`.
    #[verifier::external_body]
    pub fn new() -> (res: Hasher)
        ensures
            hasher_input(res) == Seq::<u8>::empty(),
    {
        Hasher { state: sha2::Sha256::new() }
    }

    /// Feeds `b` to the hasher: `Digest::update`.
    #[verifier::external_body]
    pub fn update(&mut self, b: &[u8])
        ensures
            hasher_input(*final(self)) == hasher_input(*old(self)) + b@,
    {
        self.state.update(b);
    }

    /// The digest of what was fed so far, leaving the hasher as it is: a
    /// `clone` of the state then `Digest::finalize`. Claimed: the SHA-256
    /// digest of the input, 32 bytes long.
    #[verifier::external_body]
    pub fn finalize(&self) -> (res: Vec<u8>)
        ensures
            res@ == sha256(hasher_input(*self)),
            res@.len() == 32,
    {
        self.state.clone().finalize().to_vec()
    }

    /// A second hasher in the same state: `Clone::clone` of the state.
    #[verifier::external_body]
    pub fn duplicate(&self) -> (res: Hasher)
        ensures
            hasher_input(res) == hasher_input(*self),
    {
        Hasher { state: self.state.clone() }
    }
}

/// The contents of an optional string.
pub open spec fn opt_string(o: Option<String>) -> Option<Seq<char>> {
    match o {
        Some(s) => Some(s@),
        None => None,
    }
}

/// The contents of a list of strings.
pub open spec fn strings_view(v: Seq<String>) -> Seq<Seq<char>> {
    v.map_values(|s: String| s@)
}

/// The state of an upload between its requests.
pub struct UploadSession {
    pub hasher: Hasher,
    pub content_type: Option<String>,
    pub ext: Option<String>,
    pub s3_key: String,
    pub content_length: u64,
    pub directory: String,
    pub title: Option<String>,
    pub upload_id: Option<String>,
    pub part_number: Option<u32>,
    pub user_id: i64,
    pub last_modified: Option<String>,
    pub part_etag: Vec<String>,
}

/// What an upload session holds, with the hasher taken as the bytes fed to it.
#[verifier::ext_equal]
pub struct UploadState {
    pub input: Seq<u8>,
    pub content_type: Option<Seq<char>>,
    pub ext: Option<Seq<char>>,
    pub s3_key: Seq<char>,
    pub content_length: u64,
    pub directory: Seq<char>,
    pub title: Option<Seq<char>>,
    pub upload_id: Option<Seq<char>>,
    pub part_number: Option<u32>,
    pub user_id: i64,
    pub last_modified: Option<Seq<char>>,
    pub part_etag: Seq<Seq<char>>,
}

impl View for UploadSession {
    type V = UploadState;

    open spec fn view(&self) -> UploadState {
        UploadState {
            input: hasher_input(self.hasher),
            content_type: opt_string(self.content_type),
            ext: opt_string(self.ext),
            s3_key: self.s3_key@,
            content_length: self.content_length,
            directory: self.directory@,
            title: opt_string(self.title),
            upload_id: opt_string(self.upload_id),
            part_number: self.part_number,
            user_id: self.user_id,
            last_modified: opt_string(self.last_modified),
            part_etag: strings_view(self.part_etag@),
        }
    }
}

/// The state of a fresh upload, before any part: the directory defaults to
/// the root.
pub open spec fn new_upload_spec(
    user_id: i64,
    s3_key: Seq<char>,
    title: Option<Seq<char>>,
    directory: Option<Seq<char>>,
    last_modified: Option<Seq<char>>,
) -> UploadState {
    UploadState {
        input: Seq::empty(),
        content_type: None,
        ext: None,
        s3_key,
        content_length: 0,
        directory: match directory { Some(d) => d, None => seq!['/'] },
        title,
        upload_id: None,
        part_number: None,
        user_id,
        last_modified,
        part_etag: Seq::empty(),
    }
}

/// The number the next part must carry, or the refusal: the first part is
/// numbered 0 and each next one follows the previous.
pub open spec fn next_part_spec(current: Option<u32>, part: u32) -> Result<u32, Status> {
    match current {
        Some(v) => if v + 1 == part { Ok(part) } else { Err(Status::BadRequest) },
        None => if part == 0 { Ok(0) } else { Err(Status::BadRequest) },
    }
}

/// The state with the part number set to `n`.
pub open spec fn with_part_number(st: UploadState, n: u32) -> UploadState {
    UploadState { part_number: Some(n), ..st }
}

/// The state once the first part has shown the content type and the
/// multipart upload has begun.
pub open spec fn started_spec(
    st: UploadState,
    content_type: Seq<char>,
    ext: Option<Seq<char>>,
    upload_id: Seq<char>,
) -> UploadState {
    UploadState { content_type: Some(content_type), ext, upload_id: Some(upload_id), ..st }
}

/// The name under which a part waits for its entity tag.
pub open spec fn pending_etag_name(upload_id: Seq<char>, part_number: u32) -> Seq<char> {
    "s3_wait_etag:"@ + upload_id + seq!['-'] + nat_digits(part_number as nat)
}

/// The state after a part's bytes are taken in: they are hashed and
/// counted, and the part's pending entity-tag name is recorded.
pub open spec fn absorb_spec(st: UploadState, buf: Seq<u8>) -> UploadState {
    UploadState {
        input: st.input + buf,
        content_length: (st.content_length + buf.len()) as u64,
        part_etag: st.part_etag.push(pending_etag_name(st.upload_id->0, st.part_number->0)),
        ..st
    }
}

/// An upload whose parts were all taken in: none yet, or parts `0..=n`
/// with one entity-tag name each, a started multipart upload, and as many
/// bytes counted as hashed.
pub open spec fn upload_consistent(st: UploadState) -> bool {
    match st.part_number {
        None => st.part_etag.len() == 0 && st.input.len() == 0 && st.content_length == 0,
        Some(n) => st.part_etag.len() == n + 1 && st.upload_id is Some && st.content_length == st.input.len(),
    }
}

fn copy_opt_string(o: &Option<String>) -> (res: Option<String>)
    ensures
        opt_string(res) == opt_string(*o),
{
    match o {
        Some(s) => Some(String::from_str(s.as_str())),
        None => None,
    }
}

impl UploadSession {
    /// A fresh upload by `user_id` stored under `s3_key`.
    pub fn new(
        user_id: i64,
        s3_key: String,
        title: Option<String>,
        directory: Option<String>,
        last_modified: Option<String>,
    ) -> (res: Self)
        ensures
            res@ == new_upload_spec(user_id, s3_key@, opt_string(title), opt_string(directory), opt_string(last_modified)),
    {
        let given = directory;
        let directory = match given {
            Some(d) => d,
            None => {
                let mut root = String::new();
                crate::text::push_char(&mut root, '/');
                root
            },
        };
        let res = UploadSession {
            hasher: Hasher::new(),
            content_type: None,
            ext: None,
            s3_key,
            content_length: 0,
            directory,
            title,
            upload_id: None,
            part_number: None,
            user_id,
            last_modified,
            part_etag: Vec::new(),
        };
        assert(res@.part_etag =~= Seq::<Seq<char>>::empty());
        res
    }

    /// A copy of the session.
    pub fn duplicate(&self) -> (res: Self)
        ensures
            res@ == self@,
    {
        let mut etags: Vec<String> = Vec::new();
        let mut i: usize = 0;
        while i < self.part_etag.len()
            invariant
                0 <= i <= self.part_etag@.len(),
                etags@.len() == i,
                forall|j: int| 0 <= j < i ==> (#[trigger] etags@[j])@ == self.part_etag@[j]@,
            decreases self.part_etag.len() - i,
        {
            etags.push(String::from_str(self.part_etag[i].as_str()));
            i = i + 1;
        }
        let res = UploadSession {
            hasher: self.hasher.duplicate(),
            content_type: copy_opt_string(&self.content_type),
            ext: copy_opt_string(&self.ext),
            s3_key: String::from_str(self.s3_key.as_str()),
            content_length: self.content_length,
            directory: String::from_str(self.directory.as_str()),
            title: copy_opt_string(&self.title),
            upload_id: copy_opt_string(&self.upload_id),
            part_number: self.part_number,
            user_id: self.user_id,
            last_modified: copy_opt_string(&self.last_modified),
            part_etag: etags,
        };
        assert(res@.part_etag =~= self@.part_etag);
        res
    }

    /// Moves to part `part`: it must be 0 for the first part and follow the
    /// previous part otherwise (`BadRequest`, nothing changed). Returns the
    /// new part number; 0 means this is the first part.
    pub fn begin_part(&mut self, part: u32) -> (res: Result<u32, Status>)
        requires
            old(self).part_number != Some(u32::MAX),
        ensures
            res == next_part_spec(old(self).part_number, part),
            final(self)@ == (match res {
                Ok(n) => with_part_number(old(self)@, n),
                Err(_) => old(self)@,
            }),
    {
        match self.part_number {
            Some(v) => {
                if v + 1 == part {
                    self.part_number = Some(part);
                    Ok(part)
                } else {
                    Err(Status::BadRequest)
                }
            },
            None => {
                if part == 0 {
                    self.part_number = Some(0);
                    Ok(0)
                } else {
                    Err(Status::BadRequest)
                }
            },
        }
    }

    /// Records what the first part showed and the multipart upload begun for it.
    pub fn start_upload(&mut self, content_type: String, ext: Option<String>, upload_id: String)
        ensures
            final(self)@ == started_spec(old(self)@, content_type@, opt_string(ext), upload_id@),
    {
        self.content_type = Some(content_type);
        self.ext = ext;
        self.upload_id = Some(upload_id);
    }

    /// Takes in a part's bytes: they are hashed and counted, and the name
    /// under which the part waits for its entity tag is recorded and returned.
    pub fn absorb_part(&mut self, buf: &[u8]) -> (res: String)
        requires
            old(self).upload_id is Some,
            old(self).part_number is Some,
            old(self).content_length + buf@.len() <= u64::MAX,
        ensures
            final(self)@ == absorb_spec(old(self)@, buf@),
            res@ == pending_etag_name(old(self)@.upload_id->0, old(self)@.part_number->0),
    {
        self.hasher.update(buf);
        self.content_length = self.content_length + buf.len() as u64;
        let upload_id = match &self.upload_id {
            Some(u) => u,
            None => {
                assert(false);
                return String::new();
            },
        };
        let number = match self.part_number {
            Some(n) => n,
            None => 0,
        };
        let mut name = String::from_str("s3_wait_etag:");
        name.append(upload_id.as_str());
        crate::text::push_char(&mut name, '-');
        let digits = u64_to_decimal(number as u64);
        name.append(digits.as_str());
        assert(name@ =~= pending_etag_name(old(self)@.upload_id->0, old(self)@.part_number->0));
        let copy = String::from_str(name.as_str());
        let ghost old_etags = self.part_etag@;
        self.part_etag.push(copy);
        assert(strings_view(self.part_etag@) =~= strings_view(old_etags).push(name@));
        assert(self@.input =~= absorb_spec(old(self)@, buf@).input);
        assert(self@.content_length == absorb_spec(old(self)@, buf@).content_length);
        assert(self@.part_etag =~= absorb_spec(old(self)@, buf@).part_etag);
        assert(self@.upload_id == absorb_spec(old(self)@, buf@).upload_id);
        assert(self@ =~= absorb_spec(old(self)@, buf@));
        name
    }
}

/// A part is taken exactly when it carries the next number: 0 for the
/// first part, one more than the previous part after that.
pub proof fn lemma_parts_in_order(current: Option<u32>, part: u32)
    requires
        current != Some(u32::MAX),
    ensures
        next_part_spec(current, part) is Ok <==> part == (match current {
            Some(v) => v + 1,
            None => 0,
        }),
        next_part_spec(current, part) is Ok ==> next_part_spec(current, part) == Ok::<u32, Status>(part),
        next_part_spec(current, part) is Err ==> next_part_spec(current, part) == Err::<u32, Status>(Status::BadRequest),
{
}

/// A fresh upload is consistent, and taking in a part keeps it so.
pub proof fn lemma_parts_keep_upload_consistent(
    st: UploadState,
    part: u32,
    first: (Seq<char>, Option<Seq<char>>, Seq<char>),
    buf: Seq<u8>,
)
    requires
        upload_consistent(st),
        next_part_spec(st.part_number, part) is Ok,
        st.content_length + buf.len() <= u64::MAX,
    ensures
        ({
            let n = next_part_spec(st.part_number, part)->Ok_0;
            let begun = with_part_number(st, n);
            let started = if n == 0 { started_spec(begun, first.0, first.1, first.2) } else { begun };
            &&& upload_consistent(absorb_spec(started, buf))
            &&& absorb_spec(started, buf).input == st.input + buf
            &&& absorb_spec(started, buf).part_number == Some(n)
        }),
{
}

/// A fresh upload is consistent.
pub proof fn lemma_new_upload_consistent(
    user_id: i64,
    s3_key: Seq<char>,
    title: Option<Seq<char>>,
    directory: Option<Seq<char>>,
    last_modified: Option<Seq<char>>,
)
    ensures
        upload_consistent(new_upload_spec(user_id, s3_key, title, directory, last_modified)),
{
}

/// The bytes of `bodies` one after another.
pub open spec fn concat_bodies(bodies: Seq<Seq<u8>>) -> Seq<u8>
    decreases bodies.len(),
{
    if bodies.len() == 0 {
        Seq::empty()
    } else {
        concat_bodies(bodies.drop_last()) + bodies.last()
    }
}

/// The state after parts `0..bodies.len()` with these bodies were taken in
/// one after another, starting from `st`: each part's number is set, the
/// first part records `first` (content type, extension, multipart upload id),
/// and each body is absorbed.
pub open spec fn upload_after_parts(
    st: UploadState,
    bodies: Seq<Seq<u8>>,
    first: (Seq<char>, Option<Seq<char>>, Seq<char>),
) -> UploadState
    decreases bodies.len(),
{
    if bodies.len() == 0 {
        st
    } else {
        let prev = upload_after_parts(st, bodies.drop_last(), first);
        let n = (bodies.len() - 1) as u32;
        let begun = with_part_number(prev, n);
        let started = if n == 0 { started_spec(begun, first.0, first.1, first.2) } else { begun };
        absorb_spec(started, bodies.last())
    }
}

/// Parts numbered 0, 1, ..., k-1 sent to a fresh upload are each accepted,
/// and afterwards the upload stands at part k-1 with all the bytes counted
/// and hashed in order, the multipart upload of the first part recorded,
/// and one waiting-tag name per part, `s3_wait_etag:<upload id>-<i>`; its
/// other fields are as the fresh upload had them.
pub proof fn lemma_sequential_parts(
    user_id: i64,
    s3_key: Seq<char>,
    title: Option<Seq<char>>,
    directory: Option<Seq<char>>,
    last_modified: Option<Seq<char>>,
    bodies: Seq<Seq<u8>>,
    first: (Seq<char>, Option<Seq<char>>, Seq<char>),
)
    requires
        bodies.len() <= u32::MAX,
        concat_bodies(bodies).len() <= u64::MAX,
    ensures
        ({
            let st0 = new_upload_spec(user_id, s3_key, title, directory, last_modified);
            let st = upload_after_parts(st0, bodies, first);
            &&& forall|i: int| 0 <= i < bodies.len() ==> next_part_spec(
                #[trigger] upload_after_parts(st0, bodies.take(i), first).part_number,
                i as u32,
            ) == Ok::<u32, Status>(i as u32)
            &&& bodies.len() > 0 ==> {
                &&& st.part_number == Some((bodies.len() - 1) as u32)
                &&& st.upload_id == Some(first.2)
                &&& st.content_type == Some(first.0)
                &&& st.ext == first.1
            }
            &&& bodies.len() == 0 ==> st == st0
            &&& st.input == concat_bodies(bodies)
            &&& st.content_length == concat_bodies(bodies).len()
            &&& st.part_etag == Seq::new(bodies.len(), |i: int| pending_etag_name(first.2, i as u32))
            &&& st.user_id == user_id && st.s3_key == s3_key && st.title == title
            &&& st.directory == st0.directory && st.last_modified == last_modified
        }),
    decreases bodies.len(),
{
    let st0 = new_upload_spec(user_id, s3_key, title, directory, last_modified);
    if bodies.len() > 0 {
        let shorter = bodies.drop_last();
        lemma_concat_len_prefix(bodies);
        lemma_sequential_parts(user_id, s3_key, title, directory, last_modified, shorter, first);
        let prev = upload_after_parts(st0, shorter, first);
        let k = bodies.len() - 1;
        assert forall|i: int| 0 <= i < bodies.len() implies next_part_spec(
            #[trigger] upload_after_parts(st0, bodies.take(i), first).part_number,
            i as u32,
        ) == Ok::<u32, Status>(i as u32) by {
            if i < k {
                assert(bodies.take(i) =~= shorter.take(i));
            } else {
                assert(bodies.take(i) =~= shorter);
            }
        }
        let st = upload_after_parts(st0, bodies, first);
        assert(st.part_etag =~= Seq::new(bodies.len(), |i: int| pending_etag_name(first.2, i as u32)));
    } else {
        assert(st0.part_etag =~= Seq::new(0, |i: int| pending_etag_name(first.2, i as u32)));
    }
}

proof fn lemma_concat_len_prefix(bodies: Seq<Seq<u8>>)
    requires
        bodies.len() > 0,
    ensures
        concat_bodies(bodies.drop_last()).len() <= concat_bodies(bodies).len(),
{
}

/// The (MIME type, extension) that `infer` recognizes in the leading bytes
/// of a file, if any.
pub uninterp spec fn inferred_type(buf: Seq<u8>) -> Option<(Seq<char>, Seq<char>)>;

/// Recognizes a file type from its leading bytes: `infer::get`, read with
/// `mime_type` and `extension`. The result depends on the bytes alone; which
/// types are recognized is left to the crate.
#[verifier::external_body]
fn infer_type(buf: &[u8]) -> (res: Option<(&'static str, &'static str)>)
    ensures
        match res {
            Some((m, e)) => inferred_type(buf@) == Some((m@, e@)),
            None => inferred_type(buf@) is None,
        },
{
    infer::get(buf).map(|kind| (kind.mime_type(), kind.extension()))
}

/// The file extension kept for an image type whose recognized extension is empty.
pub open spec fn extension_for_type(content_type: Seq<char>) -> Option<Seq<char>> {
    if content_type == "image/jpeg"@ {
        Some(".jpg"@)
    } else if content_type == "image/png"@ {
        Some(".png"@)
    } else if content_type == "image/webp"@ {
        Some(".webp"@)
    } else if content_type == "image/avif"@ {
        Some(".avif"@)
    } else if content_type == "image/apng"@ {
        Some(".apng"@)
    } else if content_type == "image/vnd.mozilla.apng"@ {
        Some(".apng"@)
    } else {
        None
    }
}

/// The content type and extension an upload is stored with, given the
/// recognized (MIME type, extension): the extension gets a leading dot;
/// APNG is stored as PNG; a type that is not browser-safe (or none) becomes
/// `application/octet-stream` without extension.
pub open spec fn classify_spec(kind: Option<(Seq<char>, Seq<char>)>) -> (Seq<char>, Option<Seq<char>>) {
    let content_type = match kind { Some((m, _)) => m, None => Seq::<char>::empty() };
    let ext = match kind { Some((_, e)) => Some(seq!['.'] + e), None => None };
    let ext = if ext == Some(Seq::<char>::empty()) { extension_for_type(content_type) } else { ext };
    let content_type = if content_type == "image/apng"@ { "image/png"@ } else { content_type };
    if !crate::browsersafe::is_browser_safe_type(content_type) {
        ("application/octet-stream"@, None)
    } else {
        (content_type, ext)
    }
}

/// What the first part's recognized type makes of the stored content type
/// and extension: a browser-safe type other than APNG is kept with the
/// recognized extension after a dot (so a GIF stays `image/gif` with
/// `.gif`); APNG is stored as `image/png`, keeping its extension; any other
/// recognized type, and an unrecognized file, is stored as
/// `application/octet-stream` without extension.
pub proof fn lemma_classify_keeps_browser_safe(m: Seq<char>, e: Seq<char>)
    ensures
        crate::browsersafe::is_browser_safe_type(m) && m != "image/apng"@ ==> classify_spec(Some((m, e))) == (
            m,
            Some(seq!['.'] + e),
        ),
        m == "image/apng"@ ==> classify_spec(Some((m, e))) == ("image/png"@, Some(seq!['.'] + e)),
        !crate::browsersafe::is_browser_safe_type(m) ==> classify_spec(Some((m, e))) == (
            "application/octet-stream"@,
            None::<Seq<char>>,
        ),
        classify_spec(None) == ("application/octet-stream"@, None::<Seq<char>>),
{
    crate::browsersafe::lemma_browser_safe_list();
    crate::browsersafe::lemma_not_browser_safe();
    assert((seq!['.'] + e).len() > 0);
    assert(Some(seq!['.'] + e) != Some(Seq::<char>::empty()));
}

fn extension_for(t: &str) -> (res: Option<String>)
    ensures
        opt_string(res) == extension_for_type(t@),
{
    if crate::text::str_eq(t, "image/jpeg") {
        Some(String::from_str(".jpg"))
    } else if crate::text::str_eq(t, "image/png") {
        Some(String::from_str(".png"))
    } else if crate::text::str_eq(t, "image/webp") {
        Some(String::from_str(".webp"))
    } else if crate::text::str_eq(t, "image/avif") {
        Some(String::from_str(".avif"))
    } else if crate::text::str_eq(t, "image/apng") {
        Some(String::from_str(".apng"))
    } else if crate::text::str_eq(t, "image/vnd.mozilla.apng") {
        Some(String::from_str(".apng"))
    } else {
        None
    }
}

/// The content type and extension to store, given the recognized
/// (MIME type, extension) of the first part.
pub fn classify_content(kind: Option<(&str, &str)>) -> (res: (String, Option<String>))
    ensures
        (res.0@, opt_string(res.1)) == classify_spec(
            match kind { Some((m, e)) => Some((m@, e@)), None => None },
        ),
{
    let mut content_type = String::new();
    let mut ext: Option<String> = None;
    if let Some((m, e)) = kind {
        content_type = String::from_str(m);
        let mut dotted = String::new();
        crate::text::push_char(&mut dotted, '.');
        dotted.append(e);
        ext = Some(dotted);
    }
    let empty_ext = match &ext {
        Some(x) => x.as_str().is_empty(),
        None => false,
    };
    if empty_ext {
        ext = extension_for(content_type.as_str());
    }
    if crate::text::str_eq(content_type.as_str(), "image/apng") {
        content_type = String::from_str("image/png");
    }
    if !crate::browsersafe::is_browser_safe(content_type.as_str()) {
        content_type = String::from_str("application/octet-stream");
        ext = None;
    }
    (content_type, ext)
}

/// The content type and extension to store for a first part with these bytes.
pub fn detect_content(buf: &[u8]) -> (res: (String, Option<String>))
    ensures
        (res.0@, opt_string(res.1)) == classify_spec(inferred_type(buf@)),
{
    classify_content(infer_type(buf))
}

/// What a finished upload hands to the storage and the file table.
pub struct Completion {
    /// (part number, entity tag) of each part, numbered from 1.
    pub parts: Vec<(u32, String)>,
    /// The SHA-256 digest of all uploaded bytes, in lower-case hex.
    pub sha256_hex: String,
    /// The `Content-Disposition` the stored object is served with.
    pub content_disposition: String,
    /// The id of the multipart upload to complete.
    pub upload_id: String,
}

/// The (number, tag) list of the parts named `names`, numbered from 1.
pub open spec fn completion_parts(tags: Map<Seq<char>, Seq<char>>, names: Seq<Seq<char>>) -> Seq<(u32, Seq<char>)> {
    Seq::new(names.len(), |i: int| ((i + 1) as u32, tags[names[i]]))
}

/// The `Content-Disposition` of an upload: inline, with the percent-encoded
/// title (or "no title") as file name.
pub open spec fn disposition_spec(title: Option<Seq<char>>) -> Seq<char> {
    let name = match title { Some(t) => t, None => "no title"@ };
    "inline; filename=\""@ + crate::encoding::percent_encoded(vstd::utf8::encode_utf8(name)) + "\""@
}

/// Whether an upload may be completed: `BadRequest` unless it has parts and
/// exactly one recorded part name per part number; `InternalServerError`
/// without a started multipart upload.
pub open spec fn completion_check_spec(st: UploadState) -> Result<(), Status> {
    match st.part_number {
        None => Err(Status::BadRequest),
        Some(n) => if st.part_etag.len() != n + 1 {
            Err(Status::BadRequest)
        } else if st.upload_id is None {
            Err(Status::InternalServerError)
        } else {
            Ok(())
        },
    }
}

/// The cache policy of stored objects: they never change.
pub fn cache_control() -> (res: &'static str)
    ensures
        res@ == "max-age=31536000, immutable"@,
{
    "max-age=31536000, immutable"
}

/// Prepares the completion of an upload whose parts all have entity tags.
pub fn prepare_completion(session: &UploadSession, tags: &crate::upload_store::PartEtags) -> (res: Result<
    Completion,
    Status,
>)
    requires
        crate::upload_store::scan_from(tags.view(), session@.part_etag, 0) == crate::upload_store::EtagScan::Ready,
        session.part_etag@.len() < u32::MAX,
        session.part_number matches Some(n) ==> n < u32::MAX - 1,
    ensures
        match (res, completion_check_spec(session@)) {
            (Ok(c), Ok(())) => {
                &&& c.parts@.len() == session@.part_etag.len()
                &&& forall|i: int| 0 <= i < c.parts@.len() ==> (#[trigger] c.parts@[i]).0 == completion_parts(
                    tags.view(),
                    session@.part_etag,
                )[i].0 && c.parts@[i].1@ == completion_parts(tags.view(), session@.part_etag)[i].1
                &&& c.sha256_hex@ == crate::encoding::hex_lower(sha256(session@.input))
                &&& c.content_disposition@ == disposition_spec(session@.title)
                &&& Some(c.upload_id@) == session@.upload_id
            },
            (Err(e), Err(se)) => e == se,
            _ => false,
        },
{
    let names = &session.part_etag;
    let ghost ns = strings_view(names@);
    let mut parts: Vec<(u32, String)> = Vec::new();
    let mut number: u32 = 1;
    let mut i: usize = 0;
    while i < names.len()
        invariant
            0 <= i <= names@.len(),
            names@.len() < u32::MAX,
            ns == strings_view(names@),
            number == i + 1,
            crate::upload_store::scan_from(tags.view(), ns, 0) == crate::upload_store::scan_from(tags.view(), ns, i as int),
            crate::upload_store::scan_from(tags.view(), ns, 0) == crate::upload_store::EtagScan::Ready,
            parts@.len() == i,
            forall|j: int| 0 <= j < i ==> (#[trigger] parts@[j]).0 == completion_parts(tags.view(), ns)[j].0
                && parts@[j].1@ == completion_parts(tags.view(), ns)[j].1,
        decreases names.len() - i,
    {
        assert(ns[i as int] == names@[i as int]@);
        let tag = match tags.get(names[i].as_str()) {
            Some(t) => t,
            None => {
                assert(false);
                return Err(Status::InternalServerError);
            },
        };
        parts.push((number, tag));
        number = number + 1;
        i = i + 1;
    }
    match session.part_number {
        Some(n) => {
            if number != n + 2 {
                return Err(Status::BadRequest);
            }
        },
        None => {
            return Err(Status::BadRequest);
        },
    }
    let digest = session.hasher.finalize();
    let sha256_hex = crate::encoding::to_hex_lower(digest.as_slice());
    let title: &str = match &session.title {
        Some(t) => t.as_str(),
        None => "no title",
    };
    let encoded = crate::encoding::percent_encode_non_alphanumeric(title.as_bytes());
    let mut content_disposition = String::from_str("inline; filename=\"");
    content_disposition.append(encoded.as_str());
    content_disposition.append("\"");
    let upload_id = match &session.upload_id {
        Some(u) => String::from_str(u.as_str()),
        None => {
            return Err(Status::InternalServerError);
        },
    };
    Ok(Completion { parts, sha256_hex, content_disposition, upload_id })
}

/// An upload whose parts were all taken in, and of which at least one was,
/// passes the completion checks.
pub proof fn lemma_consistent_upload_completes(st: UploadState)
    requires
        upload_consistent(st),
        st.part_number is Some,
    ensures
        completion_check_spec(st) == Ok::<(), Status>(()),
{
}

/// The file name under which an upload is stored: its title, or "no_title".
pub fn upload_basename(title: Option<&str>) -> (res: String)
    ensures
        res@ == (match title { Some(t) => t@, None => "no_title"@ }),
{
    match title {
        Some(t) => String::from_str(t),
        None => String::from_str("no_title"),
    }
}

/// The `n`-th name tried for a new file: the base name itself first, then
/// the base name followed by `(n)`.
pub open spec fn name_candidate_spec(base: Seq<char>, n: nat) -> Seq<char> {
    if n == 0 {
        base
    } else {
        base + seq!['('] + nat_digits(n) + seq![')']
    }
}

/// The `n`-th name tried for a new file.
pub fn name_candidate(base: &str, n: u32) -> (res: String)
    ensures
        res@ == name_candidate_spec(base@, n as nat),
{
    let mut res = String::from_str(base);
    if n > 0 {
        crate::text::push_char(&mut res, '(');
        let digits = u64_to_decimal(n as u64);
        res.append(digits.as_str());
        crate::text::push_char(&mut res, ')');
    }
    res
}

/// The names tried for a new file are all different.
pub proof fn lemma_name_candidates_distinct(base: Seq<char>, a: nat, b: nat)
    requires
        a != b,
    ensures
        name_candidate_spec(base, a) != name_candidate_spec(base, b),
{
    crate::decimal::lemma_nat_digits_shape(a);
    crate::decimal::lemma_nat_digits_shape(b);
    if a != 0 && b != 0 {
        let x = name_candidate_spec(base, a);
        let y = name_candidate_spec(base, b);
        if x == y {
            let da = nat_digits(a);
            let db = nat_digits(b);
            assert(da.len() == db.len()) by {
                assert(x.len() == base.len() + 2 + da.len());
                assert(y.len() == base.len() + 2 + db.len());
            }
            assert(da =~= db) by {
                assert forall|i: int| 0 <= i < da.len() implies da[i] == db[i] by {
                    assert(x[base.len() + 1 + i] == da[i]);
                    assert(y[base.len() + 1 + i] == db[i]);
                }
            }
        }
    } else if a == 0 {
        assert(name_candidate_spec(base, b).len() > base.len());
    } else {
        assert(name_candidate_spec(base, a).len() > base.len());
    }
}

/// The most candidate names probed for a new file.
pub const NAME_PROBES: u32 = 100;

/// What to do with the candidate names of a new file: probe candidate `n`
/// for an existing file, or store the file under candidate `n`.
#[derive(Debug, Clone, Copy, PartialEq, Eq, Structural)]
pub enum NameStep {
    Probe(u32),
    Store(u32),
}

/// The step after probing candidate `n`: a free name is taken; a taken one
/// moves on to the next candidate, which is probed only while fewer than
/// `NAME_PROBES` were probed (the last one is then used unprobed, and the
/// insertion refuses it if it is taken).
pub open spec fn name_step_spec(n: u32, taken: bool) -> NameStep {
    if !taken {
        NameStep::Store(n)
    } else if n + 1 < NAME_PROBES {
        NameStep::Probe((n + 1) as u32)
    } else {
        NameStep::Store((n + 1) as u32)
    }
}

/// The step after probing candidate `n`.
pub fn name_step(n: u32, taken: bool) -> (res: NameStep)
    requires
        n < NAME_PROBES,
    ensures
        res == name_step_spec(n, taken),
{
    if !taken {
        NameStep::Store(n)
    } else if n + 1 < NAME_PROBES {
        NameStep::Probe(n + 1)
    } else {
        NameStep::Store(n + 1)
    }
}

/// The candidate a new file ends up under when probing from candidate `n`
/// on, where `taken(k)` tells whether candidate `k` is in use: the first
/// free one among those probed, else the one after the last probe.
pub open spec fn chosen_candidate(taken: spec_fn(nat) -> bool, n: nat) -> nat
    decreases NAME_PROBES - n,
{
    if n >= NAME_PROBES {
        n
    } else if !taken(n) {
        n
    } else {
        chosen_candidate(taken, n + 1)
    }
}

/// Following the steps from a probe of candidate `n` ends at the chosen
/// candidate: each step either stores under it or probes a candidate from
/// which the same candidate is chosen.
pub proof fn lemma_name_steps_reach_choice(taken: spec_fn(nat) -> bool, n: u32)
    requires
        n < NAME_PROBES,
    ensures
        match name_step_spec(n, taken(n as nat)) {
            NameStep::Store(m) => m as nat == chosen_candidate(taken, n as nat),
            NameStep::Probe(m) => m < NAME_PROBES && n < m && chosen_candidate(taken, m as nat) == chosen_candidate(taken, n as nat),
        },
{
    if taken(n as nat) && n + 1 >= NAME_PROBES {
        assert(chosen_candidate(taken, (n + 1) as nat) == (n + 1) as nat);
    }
}

/// The chosen candidate is the first free one: every candidate before it
/// is taken, and it is free unless all `NAME_PROBES` probed ones are taken.
pub proof fn lemma_chosen_candidate_first_free(taken: spec_fn(nat) -> bool, n: nat)
    requires
        n <= NAME_PROBES,
    ensures
        n <= chosen_candidate(taken, n) <= NAME_PROBES,
        forall|k: nat| n <= k < chosen_candidate(taken, n) ==> #[trigger] taken(k),
        chosen_candidate(taken, n) < NAME_PROBES ==> !taken(chosen_candidate(taken, n)),
    decreases NAME_PROBES - n,
{
    if n < NAME_PROBES && taken(n) {
        lemma_chosen_candidate_first_free(taken, n + 1);
        assert forall|k: nat| n <= k < chosen_candidate(taken, n) implies #[trigger] taken(k) by {
            if k > n {
                assert(n + 1 <= k < chosen_candidate(taken, n + 1));
            }
        }
    }
}

/// The UTC time that an RFC 3339 date-time text denotes, if it is one.
pub uninterp spec fn rfc3339_instant(text: Seq<char>) -> Option<Instant>;

/// Reads an RFC 3339 date-time: `chrono::DateTime::parse_from_rfc3339`,
/// converted to UTC and read with `timestamp` and `timestamp_subsec_nanos`.
/// Claimed: the result depends on the text alone; `None` when it is not
/// RFC 3339.
#[verifier::external_body]
fn parse_rfc3339(text: &str) -> (res: Option<Instant>)
    ensures
        res == rfc3339_instant(text@),
{
    let t = chrono::DateTime::parse_from_rfc3339(text).ok()?.to_utc();
    Some(Instant { secs: t.timestamp(), nanos: t.timestamp_subsec_nanos() })
}

/// The modification time of a finished upload's file: the time the upload
/// named as its last modification, if that is RFC 3339 text, else `now`,
/// the time the file is recorded.
pub open spec fn file_updated_at_spec(last_modified: Option<Seq<char>>, now: Instant) -> Instant {
    match last_modified {
        Some(text) => match rfc3339_instant(text) {
            Some(t) => t,
            None => now,
        },
        None => now,
    }
}

/// The modification time of a finished upload's file.
pub fn file_updated_at(last_modified: Option<&str>, now: Instant) -> (res: Instant)
    ensures
        res == file_updated_at_spec(crate::text::opt_str(last_modified), now),
{
    match last_modified {
        Some(text) => match parse_rfc3339(text) {
            Some(t) => t,
            None => now,
        },
        None => now,
    }
}

/// The storage key of a finished upload's file: the key of an earlier file
/// of the user with the same content when one was found (its object is
/// shared, and the new multipart upload is dropped), else the upload's own.
pub fn stored_key(own_key: &str, earlier: Option<&str>) -> (res: String)
    ensures
        res@ == (match earlier {
            Some(k) => k@,
            None => own_key@,
        }),
{
    match earlier {
        Some(k) => String::from_str(k),
        None => String::from_str(own_key),
    }
}

/// The content type a new file is stored with: the detected one, or
/// `application/octet-stream`.
pub fn stored_content_type(content_type: Option<&str>) -> (res: String)
    ensures
        res@ == (match content_type { Some(t) => t@, None => "application/octet-stream"@ }),
{
    match content_type {
        Some(t) => String::from_str(t),
        None => String::from_str("application/octet-stream"),
    }
}

/// The size column of a new file: the byte count as a signed 64-bit number
/// (wrapping above `i64::MAX`, as an `as` conversion does).
pub fn stored_size(content_length: u64) -> (res: i64)
    ensures
        res == content_length as i64,
{
    #[verifier::truncate]
    (content_length as i64)
}

/// Whether a preview (dimensions, thumbnail, blurhash) is made for a stored
/// upload of this content type: images and videos.
pub fn wants_preview(content_type: Option<&str>) -> (res: bool)
    ensures
        res == (match content_type {
            Some(t) => (t@.len() >= 6 && t@.subrange(0, 6) == "image/"@) || (t@.len() >= 6 && t@.subrange(0, 6)
                == "video/"@),
            None => false,
        }),
{
    match content_type {
        Some(t) => {
            proof {
                reveal_strlit("image/");
                reveal_strlit("video/");
            }
            crate::text::starts_with(t, "image/") || crate::text::starts_with(t, "video/")
        },
        None => false,
    }
}

/// The query of a part upload: its number.
pub struct RequestParams {
    pub part: u32,
}

/// Whether a part grows too large when `chunk` more bytes arrive after
/// `received`: the limit is taken as an unsigned size, as an `as usize`
/// conversion does (a negative limit wraps to a huge one).
pub open spec fn part_too_large_spec(received: usize, chunk: usize, max: i32) -> bool {
    received + chunk > (max as usize)
}

/// Whether a part grows beyond the configured size limit.
pub fn part_too_large(received: usize, chunk: usize, max: i32) -> (res: bool)
    requires
        received + chunk <= usize::MAX,
    ensures
        res == part_too_large_spec(received, chunk, max),
{
    #[verifier::truncate]
    let limit = max as usize;
    received + chunk > limit
}

} // verus!
