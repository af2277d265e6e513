//! Paths of the file tree. A directory is stored as an entry whose name ends
//! in `/`, under the path of its parent directory (which also ends in `/`).
use vstd::prelude::*;
use vstd::string::*;
use crate::status::Status;
use crate::text::{opt_str, chars_of, contains_char, last_index_of, lemma_last_index_of, push_char, rfind_char, string_from_chars};

verus! {

/// The characters after the last `/` of `s`.
pub open spec fn trailing_segment(s: Seq<char>) -> Seq<char>
    decreases s.len(),
{
    if s.len() == 0 {
        seq![]
    } else if s.last() == '/' {
        seq![]
    } else {
        trailing_segment(s.drop_last()).push(s.last())
    }
}

/// The non-empty segments of `s` that a `/` closes, in order.
pub open spec fn closed_components(s: Seq<char>) -> Seq<Seq<char>>
    decreases s.len(),
{
    if s.len() == 0 {
        seq![]
    } else if s.last() == '/' {
        let before = closed_components(s.drop_last());
        let seg = trailing_segment(s.drop_last());
        if seg.len() > 0 {
            before.push(seg)
        } else {
            before
        }
    } else {
        closed_components(s.drop_last())
    }
}

/// The non-empty pieces of `s` split at `/`, in order.
pub open spec fn path_components(s: Seq<char>) -> Seq<Seq<char>> {
    let seg = trailing_segment(s);
    if seg.len() > 0 {
        closed_components(s).push(seg)
    } else {
        closed_components(s)
    }
}

/// The directory that holds the `i`-th of `comps`: `/` followed by each
/// earlier component with a `/` after it.
pub open spec fn parent_directory(comps: Seq<Seq<char>>, i: int) -> Seq<char>
    decreases i,
{
    if i <= 0 {
        seq!['/']
    } else {
        parent_directory(comps, i - 1) + comps[i - 1].push('/')
    }
}

/// The directory entries, as (parent, name) pairs, that must exist for the
/// directory path `s` to exist, from the root down.
pub open spec fn chain_of(comps: Seq<Seq<char>>) -> Seq<(Seq<char>, Seq<char>)> {
    Seq::new(comps.len(), |i: int| (parent_directory(comps, i), comps[i].push('/')))
}

pub open spec fn directory_chain_spec(s: Seq<char>) -> Seq<(Seq<char>, Seq<char>)> {
    chain_of(path_components(s))
}

proof fn lemma_parent_directory_push(comps: Seq<Seq<char>>, x: Seq<char>, i: int)
    requires
        0 <= i <= comps.len(),
    ensures
        parent_directory(comps.push(x), i) == parent_directory(comps, i),
    decreases i,
{
    if i > 0 {
        lemma_parent_directory_push(comps, x, i - 1);
        assert(comps.push(x)[i - 1] == comps[i - 1]);
    }
}

proof fn lemma_chain_push(comps: Seq<Seq<char>>, x: Seq<char>)
    ensures
        chain_of(comps.push(x)) == chain_of(comps).push(
            (parent_directory(comps, comps.len() as int), x.push('/')),
        ),
{
    let a = chain_of(comps.push(x));
    let b = chain_of(comps).push((parent_directory(comps, comps.len() as int), x.push('/')));
    assert forall|i: int| 0 <= i < a.len() implies a[i] == b[i] by {
        lemma_parent_directory_push(comps, x, i);
        if i < comps.len() {
            assert(comps.push(x)[i] == comps[i]);
        }
    }
    assert(a =~= b);
}

/// A `String` copy of `s`.
fn copy_string(s: &String) -> (res: String)
    ensures
        res@ == s@,
{
    String::from_str(s.as_str())
}

/// The (parent, name) entries that `mkdirs` makes sure exist for a
/// directory path: one per non-empty `/`-separated piece, each name being the
/// piece with a `/` after it and each parent being the path of the entries
/// before it.
pub fn directory_chain(directory: &str) -> (chain: Vec<(String, String)>)
    ensures
        chain@.len() == directory_chain_spec(directory@).len(),
        forall|i: int|
            0 <= i < chain@.len() ==> (#[trigger] chain@[i]).0@ == directory_chain_spec(directory@)[i].0
                && chain@[i].1@ == directory_chain_spec(directory@)[i].1,
{
    let cs = chars_of(directory);
    let mut chain: Vec<(String, String)> = Vec::new();
    let mut segment = String::new();
    let mut parent = String::new();
    push_char(&mut parent, '/');
    let mut i: usize = 0;
    assert(cs@.subrange(0, 0) =~= Seq::<char>::empty());
    while i < cs.len()
        invariant
            0 <= i <= cs@.len(),
            cs@ == directory@,
            segment@ == trailing_segment(cs@.subrange(0, i as int)),
            parent@ == parent_directory(
                closed_components(cs@.subrange(0, i as int)),
                closed_components(cs@.subrange(0, i as int)).len() as int,
            ),
            chain@.len() == chain_of(closed_components(cs@.subrange(0, i as int))).len(),
            forall|k: int|
                0 <= k < chain@.len() ==> (#[trigger] chain@[k]).0@ == chain_of(
                    closed_components(cs@.subrange(0, i as int)),
                )[k].0 && chain@[k].1@ == chain_of(closed_components(cs@.subrange(0, i as int)))[k].1,
        decreases cs.len() - i,
    {
        let ghost pre = cs@.subrange(0, i as int);
        let ghost post = cs@.subrange(0, i + 1);
        assert(post.drop_last() =~= pre);
        let c = cs[i];
        if c == '/' {
            if !segment.as_str().is_empty() {
                proof {
                    lemma_chain_push(closed_components(pre), segment@);
                    lemma_parent_directory_push(
                        closed_components(pre),
                        segment@,
                        closed_components(pre).len() as int,
                    );
                }
                let mut name = copy_string(&segment);
                push_char(&mut name, '/');
                let entry_parent = copy_string(&parent);
                chain.push((entry_parent, name));
                parent = parent.concat(segment.as_str());
                push_char(&mut parent, '/');
                segment = String::new();
                proof {
                    let comps = closed_components(post);
                    assert(comps == closed_components(pre).push(trailing_segment(pre)));
                    assert(parent@ =~= parent_directory(comps, comps.len() as int));
                }
            } else {
                segment = String::new();
            }
            assert(segment@ =~= trailing_segment(post));
        } else {
            push_char(&mut segment, c);
        }
        i = i + 1;
    }
    assert(cs@.subrange(0, cs@.len() as int) =~= cs@);
    if !segment.as_str().is_empty() {
        proof {
            lemma_chain_push(closed_components(cs@), segment@);
        }
        let mut name = copy_string(&segment);
        push_char(&mut name, '/');
        chain.push((parent, name));
    }
    chain
}

/// `s` is a directory path that a request may name: it starts and ends with
/// `/` and holds no NUL character.
pub open spec fn is_directory_path(s: Seq<char>) -> bool {
    &&& s.len() > 0
    &&& s[0] == '/'
    &&& s.last() == '/'
    &&& !s.contains('\0')
}

/// Splits a path without its trailing `/` at its last `/`: the part up to
/// and including that `/`, and the rest with a `/` appended.
pub open spec fn split_at_last_slash(name: Seq<char>) -> (Seq<char>, Seq<char>) {
    match last_index_of(name, '/') {
        Some(p) => (name.subrange(0, p + 1), name.subrange(p + 1, name.len() as int).push('/')),
        None => (seq![], name.push('/')),
    }
}

/// The (parent, name) entry that a directory creation request for `dir`
/// creates, or the refusal.
pub open spec fn mkdir_target_spec(dir: Seq<char>) -> Result<(Seq<char>, Seq<char>), Status> {
    if !is_directory_path(dir) {
        Err(Status::BadRequest)
    } else {
        Ok(split_at_last_slash(dir.drop_last()))
    }
}

/// The (parent, name) entry of a directory creation request: `BadRequest`
/// unless the path starts and ends with `/` and holds no NUL. The root
/// itself is left out: the request handler cannot split it.
pub fn mkdir_target(directory: &str) -> (res: Result<(String, String), Status>)
    requires
        directory@ != seq!['/'],
    ensures
        match (res, mkdir_target_spec(directory@)) {
            (Ok((d, n)), Ok((sd, sn))) => d@ == sd && n@ == sn,
            (Err(e), Err(se)) => e == se,
            _ => false,
        },
{
    let cs = chars_of(directory);
    if contains_char(&cs, '\0') {
        return Err(Status::BadRequest);
    }
    let len = cs.len();
    if len == 0 || cs[0] != '/' || cs[len - 1] != '/' {
        return Err(Status::BadRequest);
    }
    let name = string_from_chars(&cs, 0, len - 1);
    let name_chars = chars_of(name.as_str());
    let pos = rfind_char(&name_chars, '/');
    proof {
        if len == 1 {
            assert(directory@ =~= seq!['/']);
        }
        lemma_last_index_of(name_chars@, '/');
        assert(name_chars@ =~= directory@.drop_last());
        assert(name_chars@[0] == '/');
    }
    match pos {
        Some(p) => {
            let d = string_from_chars(&name_chars, 0, p + 1);
            let mut n = string_from_chars(&name_chars, p + 1, name_chars.len());
            push_char(&mut n, '/');
            Ok((d, n))
        },
        None => {
            Err(Status::BadRequest)
        },
    }
}

/// The (parent, name) entry that a lookup by path names: a trailing `/` is
/// dropped, then the path is split at its last `/`.
pub open spec fn lookup_path_spec(path: Seq<char>) -> (Seq<char>, Seq<char>) {
    let stripped = if path.len() > 0 && path.last() == '/' { path.drop_last() } else { path };
    split_at_last_slash(stripped)
}

/// The (parent, name) entry that a lookup of a directory by its path names.
pub fn lookup_path(path: &str) -> (res: (String, String))
    ensures
        res.0@ == lookup_path_spec(path@).0,
        res.1@ == lookup_path_spec(path@).1,
{
    let cs = chars_of(path);
    let len = cs.len();
    let end = if len > 0 && cs[len - 1] == '/' { len - 1 } else { len };
    let stripped = string_from_chars(&cs, 0, end);
    let sc = chars_of(stripped.as_str());
    assert(sc@ =~= (if path@.len() > 0 && path@.last() == '/' { path@.drop_last() } else { path@ }));
    proof {
        lemma_last_index_of(sc@, '/');
    }
    match rfind_char(&sc, '/') {
        Some(p) => {
            let d = string_from_chars(&sc, 0, p + 1);
            let mut n = string_from_chars(&sc, p + 1, sc.len());
            push_char(&mut n, '/');
            (d, n)
        },
        None => {
            let mut n = String::from_str(stripped.as_str());
            push_char(&mut n, '/');
            (String::new(), n)
        },
    }
}

/// A new name is acceptable when it holds neither `/` nor NUL.
pub open spec fn valid_new_name(name: Seq<char>) -> bool {
    !name.contains('/') && !name.contains('\0')
}

/// Whether a move request's new name and new directory are acceptable.
pub open spec fn move_request_ok(name: Option<Seq<char>>, directory: Option<Seq<char>>) -> bool {
    &&& (name matches Some(n) ==> valid_new_name(n))
    &&& (directory matches Some(d) ==> is_directory_path(d))
}

/// Whether a string is a directory path.
pub fn check_directory_path(s: &str) -> (res: bool)
    ensures
        res == is_directory_path(s@),
{
    let cs = chars_of(s);
    let len = cs.len();
    len > 0 && cs[0] == '/' && cs[len - 1] == '/' && !contains_char(&cs, '\0')
}

/// Whether a string is an acceptable new name.
pub fn check_new_name(s: &str) -> (res: bool)
    ensures
        res == valid_new_name(s@),
{
    let cs = chars_of(s);
    !contains_char(&cs, '/') && !contains_char(&cs, '\0')
}

/// Checks the fields of a move request: `BadRequest` unless they are
/// acceptable.
pub fn check_move_request(name: Option<&str>, directory: Option<&str>) -> (res: Result<(), Status>)
    ensures
        res is Ok <==> move_request_ok(opt_str(name), opt_str(directory)),
        res is Err ==> res == Err::<(), Status>(Status::BadRequest),
{
    if let Some(n) = name {
        if !check_new_name(n) {
            return Err(Status::BadRequest);
        }
    }
    if let Some(d) = directory {
        if !check_directory_path(d) {
            return Err(Status::BadRequest);
        }
    }
    Ok(())
}

/// Where a move request sends an entry now at (`dir`, `name`): the given
/// fields replace the current ones; a move onto itself is refused.
pub open spec fn move_destination_spec(
    new_name: Option<Seq<char>>,
    new_directory: Option<Seq<char>>,
    dir: Seq<char>,
    name: Seq<char>,
) -> Result<(Seq<char>, Seq<char>), Status> {
    let d = match new_directory { Some(d) => d, None => dir };
    let n = match new_name { Some(n) => n, None => name };
    if d == dir && n == name {
        Err(Status::BadRequest)
    } else {
        Ok((d, n))
    }
}

/// The (directory, name) that a move request sends an entry to.
pub fn move_destination(
    new_name: Option<&str>,
    new_directory: Option<&str>,
    dir: &str,
    name: &str,
) -> (res: Result<(String, String), Status>)
    ensures
        match (res, move_destination_spec(opt_str(new_name), opt_str(new_directory), dir@, name@)) {
            (Ok((d, n)), Ok((sd, sn))) => d@ == sd && n@ == sn,
            (Err(e), Err(se)) => e == se,
            _ => false,
        },
{
    let d = match new_directory { Some(d) => d, None => dir };
    let n = match new_name { Some(n) => n, None => name };
    let d = String::from_str(d);
    let n = String::from_str(n);
    let same_dir = d == String::from_str(dir);
    let same_name = n == String::from_str(name);
    if same_dir && same_name {
        Err(Status::BadRequest)
    } else {
        Ok((d, n))
    }
}

/// Whether an upload request's title and directory are acceptable: the
/// title holds neither `/` nor NUL, the directory starts with `/` and holds
/// no NUL.
pub open spec fn upload_request_ok(title: Option<Seq<char>>, directory: Option<Seq<char>>) -> bool {
    &&& (title matches Some(t) ==> valid_new_name(t))
    &&& (directory matches Some(d) ==> d.len() > 0 && d[0] == '/' && !d.contains('\0'))
}

/// Checks the fields of an upload request: `BadRequest` unless acceptable.
pub fn check_upload_request(title: Option<&str>, directory: Option<&str>) -> (res: Result<(), Status>)
    ensures
        res is Ok <==> upload_request_ok(opt_str(title), opt_str(directory)),
        res is Err ==> res == Err::<(), Status>(Status::BadRequest),
{
    if let Some(t) = title {
        if !check_new_name(t) {
            return Err(Status::BadRequest);
        }
    }
    if let Some(d) = directory {
        let cs = chars_of(d);
        if cs.len() == 0 || cs[0] != '/' || contains_char(&cs, '\0') {
            return Err(Status::BadRequest);
        }
    }
    Ok(())
}

proof fn lemma_segments_have_no_slash(s: Seq<char>)
    ensures
        !trailing_segment(s).contains('/'),
        forall|i: int| 0 <= i < closed_components(s).len() ==> (#[trigger] closed_components(s)[i]).len() > 0
            && !closed_components(s)[i].contains('/'),
    decreases s.len(),
{
    if s.len() > 0 {
        lemma_segments_have_no_slash(s.drop_last());
        let t = trailing_segment(s.drop_last());
        if s.last() != '/' {
            assert forall|j: int| 0 <= j < trailing_segment(s).len() implies trailing_segment(s)[j] != '/' by {
                if j < t.len() {
                    assert(trailing_segment(s)[j] == t[j]);
                }
            }
        } else {
            let before = closed_components(s.drop_last());
            if t.len() > 0 {
                assert forall|i: int| 0 <= i < closed_components(s).len() implies (#[trigger] closed_components(s)[i]).len() > 0
                    && !closed_components(s)[i].contains('/') by {
                    if i < before.len() {
                        assert(closed_components(s)[i] == before[i]);
                    } else {
                        assert(closed_components(s)[i] == t);
                    }
                }
            }
        }
    }
}

/// A directory creation request creates the very entry that a lookup by
/// the same path names.
pub proof fn lemma_mkdir_target_is_lookup(dir: Seq<char>)
    requires
        is_directory_path(dir),
    ensures
        mkdir_target_spec(dir) == Ok::<(Seq<char>, Seq<char>), Status>(lookup_path_spec(dir)),
{
}

/// The entries that `mkdirs` ensures form a chain from the root: the first
/// lies in `/`, each next one lies in the directory that the previous one
/// is (its parent followed by its name), and each name is a non-empty piece
/// without `/` followed by one `/`.
pub proof fn lemma_directory_chain_links(s: Seq<char>)
    ensures
        ({
            let chain = directory_chain_spec(s);
            &&& chain.len() > 0 ==> chain[0].0 == seq!['/']
            &&& forall|i: int| 0 <= i < chain.len() - 1 ==> #[trigger] chain[i + 1].0 == chain[i].0 + chain[i].1
            &&& forall|i: int| 0 <= i < chain.len() ==> {
                let name = (#[trigger] chain[i]).1;
                &&& name.len() >= 2
                &&& name.last() == '/'
                &&& !name.drop_last().contains('/')
            }
        }),
{
    let comps = path_components(s);
    let chain = directory_chain_spec(s);
    lemma_segments_have_no_slash(s);
    assert forall|i: int| 0 <= i < comps.len() implies (#[trigger] comps[i]).len() > 0 && !comps[i].contains('/') by {
        if i < closed_components(s).len() {
            assert(comps[i] == closed_components(s)[i]);
        }
    }
    assert forall|i: int| 0 <= i < chain.len() - 1 implies #[trigger] chain[i + 1].0 == chain[i].0 + chain[i].1 by {
        assert(parent_directory(comps, i + 1) == parent_directory(comps, i) + comps[i].push('/'));
    }
    assert forall|i: int| 0 <= i < chain.len() implies ({
        let name = (#[trigger] chain[i]).1;
        &&& name.len() >= 2
        &&& name.last() == '/'
        &&& !name.drop_last().contains('/')
    }) by {
        assert(chain[i].1.drop_last() =~= comps[i]);
    }
}

/// `s` has no two `/` in a row.
pub open spec fn no_empty_segments(s: Seq<char>) -> bool {
    forall|i: int| 0 <= i < s.len() - 1 ==> !(#[trigger] s[i] == '/' && s[i + 1] == '/')
}

proof fn lemma_append_plain(y: Seq<char>, seg: Seq<char>)
    requires
        y.len() > 0,
        y.last() == '/',
        !seg.contains('/'),
    ensures
        trailing_segment(y + seg) == seg,
        closed_components(y + seg) == closed_components(y),
    decreases seg.len(),
{
    if seg.len() == 0 {
        assert(y + seg =~= y);
    } else {
        let shorter = seg.drop_last();
        assert(!shorter.contains('/')) by {
            if shorter.contains('/') {
                let k = choose|k: int| 0 <= k < shorter.len() && shorter[k] == '/';
                assert(seg[k] == '/');
            }
        }
        lemma_append_plain(y, shorter);
        assert((y + seg).drop_last() =~= y + shorter);
        assert((y + seg).last() == seg.last());
        assert(seg.last() != '/') by {
            assert(seg[seg.len() - 1] == seg.last());
        }
        assert(trailing_segment(y + shorter).push(seg.last()) =~= seg);
    }
}

proof fn lemma_directory_components(x: Seq<char>)
    requires
        x.len() > 0,
        x[0] == '/',
        x.last() == '/',
        no_empty_segments(x),
    ensures
        trailing_segment(x) == Seq::<char>::empty(),
        parent_directory(closed_components(x), closed_components(x).len() as int) == x,
    decreases x.len(),
{
    if x.len() == 1 {
        assert(x.drop_last() =~= Seq::<char>::empty());
        assert(closed_components(x.drop_last()) == Seq::<Seq<char>>::empty());
        assert(trailing_segment(x.drop_last()) == Seq::<char>::empty());
        assert(closed_components(x) == Seq::<Seq<char>>::empty());
        assert(x =~= seq!['/']);
    } else {
        let xp = x.drop_last();
        assert(xp.last() != '/') by {
            assert(!(x[x.len() - 2] == '/' && x[x.len() - 1] == '/'));
        }
        crate::text::lemma_last_index_of(xp, '/');
        assert(xp[0] == '/');
        let p = last_index_of(xp, '/')->0;
        let y = xp.subrange(0, p + 1);
        let seg = xp.subrange(p + 1, xp.len() as int);
        assert(xp =~= y + seg);
        assert(!seg.contains('/')) by {
            if seg.contains('/') {
                let k = choose|k: int| 0 <= k < seg.len() && seg[k] == '/';
                assert(xp[p + 1 + k] == '/');
            }
        }
        assert(seg.len() > 0) by {
            if seg.len() == 0 {
                assert(p == xp.len() - 1);
            }
        }
        assert(no_empty_segments(y)) by {
            assert forall|i: int| 0 <= i < y.len() - 1 implies !(#[trigger] y[i] == '/' && y[i + 1] == '/') by {
                assert(y[i] == x[i] && y[i + 1] == x[i + 1]);
            }
        }
        lemma_directory_components(y);
        lemma_append_plain(y, seg);
        let cy = closed_components(y);
        assert(closed_components(x) == cy.push(seg));
        lemma_parent_directory_push(cy, seg, cy.len() as int);
        assert(parent_directory(cy.push(seg), cy.len() + 1int) == parent_directory(cy.push(seg), cy.len() as int)
            + cy.push(seg)[cy.len() as int].push('/'));
        assert(parent_directory(cy, cy.len() as int) == y);
        assert(x =~= y + seg.push('/'));
    }
}

/// For a directory path without empty pieces, the last entry that `mkdirs`
/// makes sure of is the very entry that a directory creation request for
/// that path creates: after `mkdirs` the request finds it.
pub proof fn lemma_chain_ends_at_target(dir: Seq<char>)
    requires
        is_directory_path(dir),
        dir != seq!['/'],
        no_empty_segments(dir),
    ensures
        directory_chain_spec(dir).len() > 0,
        mkdir_target_spec(dir) == Ok::<(Seq<char>, Seq<char>), Status>(
            directory_chain_spec(dir)[directory_chain_spec(dir).len() - 1],
        ),
{
    lemma_directory_components(dir);
    let xp = dir.drop_last();
    assert(dir.len() >= 2) by {
        if dir.len() == 1 {
            assert(dir =~= seq!['/']);
        }
    }
    assert(xp.last() != '/') by {
        assert(!(dir[dir.len() - 2] == '/' && dir[dir.len() - 1] == '/'));
    }
    crate::text::lemma_last_index_of(xp, '/');
    assert(xp[0] == '/');
    let p = last_index_of(xp, '/')->0;
    let y = xp.subrange(0, p + 1);
    let seg = xp.subrange(p + 1, xp.len() as int);
    assert(xp =~= y + seg);
    assert(!seg.contains('/')) by {
        if seg.contains('/') {
            let k = choose|k: int| 0 <= k < seg.len() && seg[k] == '/';
            assert(xp[p + 1 + k] == '/');
        }
    }
    assert(no_empty_segments(y)) by {
        assert forall|i: int| 0 <= i < y.len() - 1 implies !(#[trigger] y[i] == '/' && y[i + 1] == '/') by {
            assert(y[i] == dir[i] && y[i + 1] == dir[i + 1]);
        }
    }
    lemma_directory_components(y);
    lemma_append_plain(y, seg);
    let cy = closed_components(y);
    assert(seg.len() > 0) by {
        if seg.len() == 0 {
            assert(p == xp.len() - 1);
        }
    }
    assert(closed_components(dir) == cy.push(seg));
    assert(path_components(dir) == cy.push(seg));
    lemma_parent_directory_push(cy, seg, cy.len() as int);
}

/// A move sends the entry to the directory and name given, each field that
/// is left out keeping its current value, whatever the other field holds;
/// it is refused (`BadRequest`) exactly when that destination is where the
/// entry already is.
pub proof fn lemma_move_destination_fields(
    new_name: Option<Seq<char>>,
    new_directory: Option<Seq<char>>,
    dir: Seq<char>,
    name: Seq<char>,
)
    ensures
        ({
            let d = if new_directory is Some { new_directory->0 } else { dir };
            let n = if new_name is Some { new_name->0 } else { name };
            match move_destination_spec(new_name, new_directory, dir, name) {
                Ok((d2, n2)) => d2 == d && n2 == n && !(d == dir && n == name),
                Err(e) => e == Status::BadRequest && d == dir && n == name,
            }
        }),
{
}

/// An upload's title is refused exactly when it holds a `/` or a NUL, and
/// its directory exactly when it is empty, does not start with `/`, or
/// holds a NUL; any other title and directory (a title with spaces, say)
/// are accepted, and so is a request that gives neither.
pub proof fn lemma_upload_request_fields(title: Seq<char>, directory: Seq<char>)
    ensures
        upload_request_ok(Some(title), None) <==> (!title.contains('/') && !title.contains('\0')),
        upload_request_ok(None, Some(directory)) <==> (directory.len() > 0 && directory[0] == '/'
            && !directory.contains('\0')),
        upload_request_ok(Some(title), Some(directory)) <==> (upload_request_ok(Some(title), None)
            && upload_request_ok(None, Some(directory))),
        upload_request_ok(None, None),
{
}

/// A move's new name is refused exactly when it holds a `/` or a NUL, and
/// its new directory exactly when it does not start and end with `/` or
/// holds a NUL.
pub proof fn lemma_move_request_fields(name: Seq<char>, directory: Seq<char>)
    ensures
        move_request_ok(Some(name), None) <==> (!name.contains('/') && !name.contains('\0')),
        move_request_ok(None, Some(directory)) <==> (directory.len() > 0 && directory[0] == '/'
            && directory[directory.len() - 1] == '/' && !directory.contains('\0')),
        move_request_ok(None, None),
{
}

proof fn lemma_last_slash_of_join(parent: Seq<char>, name: Seq<char>)
    requires
        parent.len() > 0,
        parent.last() == '/',
        !name.contains('/'),
    ensures
        last_index_of(parent + name, '/') == Some(parent.len() - 1),
{
    let s = parent + name;
    lemma_last_index_of(s, '/');
    assert(s[parent.len() - 1] == '/');
    match last_index_of(s, '/') {
        Some(i) => {
            if i < parent.len() - 1 {
                assert(s[parent.len() - 1] != '/');
            }
            if i > parent.len() - 1 {
                assert(name[i - parent.len()] == s[i]);
            }
        },
        None => {
            assert(s.contains('/'));
        },
    }
}

/// Creating the directory `name/` inside the directory `parent` (a path
/// that starts and ends with `/`, and a name with neither `/` nor NUL)
/// makes the entry `name/` under `parent`; and looking that path up, with
/// or without its trailing `/`, names the same entry.
pub proof fn lemma_mkdir_in_parent(parent: Seq<char>, name: Seq<char>)
    requires
        is_directory_path(parent),
        name.len() > 0,
        valid_new_name(name),
    ensures
        mkdir_target_spec(parent + name + seq!['/']) == Ok::<(Seq<char>, Seq<char>), Status>((parent, name.push('/'))),
        lookup_path_spec(parent + name + seq!['/']) == (parent, name.push('/')),
        lookup_path_spec(parent + name) == (parent, name.push('/')),
{
    let s = parent + name;
    let dir = s + seq!['/'];
    assert(dir.drop_last() =~= s);
    lemma_last_slash_of_join(parent, name);
    assert(s.subrange(0, parent.len() as int) =~= parent);
    assert(s.subrange(parent.len() as int, s.len() as int) =~= name);
    assert(s.last() == name.last());
    assert(name.last() != '/') by {
        assert(name[name.len() - 1] == name.last());
    }
    assert(!dir.contains('\0')) by {
        if dir.contains('\0') {
            let k = choose|k: int| 0 <= k < dir.len() && dir[k] == '\0';
            if k < parent.len() {
                assert(parent[k] == '\0');
            } else if k < s.len() {
                assert(name[k - parent.len()] == '\0');
            }
        }
    }
    assert(dir[0] == parent[0]);
}

} // verus!
