//! The path algebra: splitting a path into its `'/'`-separated segments,
//! gluing segments back together, and the two joining operations the manager
//! uses — the rooted segment-wise join (`join_paths`) and the conventional
//! Unix join (`path_join`), which `prepend_home` builds on.

use vstd::prelude::*;

use crate::errors::Error;

verus! {

/// The sequence of characters of each string in `v`.
pub open spec fn views(v: Seq<String>) -> Seq<Seq<char>> {
    v.map_values(|s: String| s@)
}

/// The segments of `s` split on `'/'`, kept in order and with empty segments
/// preserved, exactly as `str::split('/')` yields them: `"a//b"` has the
/// segments `a`, `` and `b`, and `""` has the single segment ``.
pub open spec fn split_path(s: Seq<char>) -> Seq<Seq<char>>
    decreases s.len(),
{
    if s.len() == 0 {
        seq![Seq::<char>::empty()]
    } else if s.last() == '/' {
        split_path(s.drop_last()).push(Seq::<char>::empty())
    } else {
        let parts = split_path(s.drop_last());
        parts.update(parts.len() - 1, parts.last().push(s.last()))
    }
}

/// Splitting always yields at least one segment.
pub proof fn lemma_split_path_len(s: Seq<char>)
    ensures
        split_path(s).len() >= 1,
    decreases s.len(),
{
    if s.len() > 0 {
        lemma_split_path_len(s.drop_last());
    }
}

/// Relies on `String::push`: appends the given character to the end of the
/// string.
#[verifier::external_body]
pub(crate) fn push_char(s: &mut String, c: char)
    ensures
        final(s)@ == old(s)@ + seq![c],
{
    s.push(c);
}

/// The segments of `s`, split on `'/'` with empty segments preserved.
pub fn split_segments(s: &str) -> (parts: Vec<String>)
    ensures
        views(parts@) == split_path(s@),
{
    let n = s.unicode_len();
    let mut parts: Vec<String> = Vec::new();
    let mut cur = String::new();
    let mut i: usize = 0;
    while i < n
        invariant
            i <= n,
            n == s@.len(),
            views(parts@).push(cur@) == split_path(s@.subrange(0, i as int)),
        decreases n - i,
    {
        let c = s.get_char(i);
        proof {
            let pre = s@.subrange(0, i as int);
            let ext = s@.subrange(0, i + 1 as int);
            assert(ext.drop_last() =~= pre);
            assert(ext.last() == c);
        }
        if c == '/' {
            parts.push(cur);
            cur = String::new();
            proof {
                assert(views(parts@).push(cur@) =~= split_path(s@.subrange(0, i + 1 as int)));
            }
        } else {
            let ghost prev_cur = cur@;
            push_char(&mut cur, c);
            proof {
                let pre = s@.subrange(0, i as int);
                let ext = s@.subrange(0, i as int + 1);
                let parts0 = split_path(pre);
                assert(parts0.last() == prev_cur);
                assert(split_path(ext) == parts0.update(parts0.len() - 1, parts0.last().push(c)));
                assert(prev_cur.push(c) =~= prev_cur + seq![c]);
                assert(views(parts@).push(cur@) =~~= split_path(ext));
            }
        }
        i = i + 1;
    }
    proof {
        assert(s@.subrange(0, n as int) =~= s@);
    }
    parts.push(cur);
    proof {
        assert(views(parts@) =~= split_path(s@));
    }
    parts
}

/// The non-empty segments of `parts`, in order.
pub open spec fn keep_nonempty(parts: Seq<Seq<char>>) -> Seq<Seq<char>>
    decreases parts.len(),
{
    if parts.len() == 0 {
        Seq::empty()
    } else if parts.last().len() == 0 {
        keep_nonempty(parts.drop_last())
    } else {
        keep_nonempty(parts.drop_last()).push(parts.last())
    }
}

/// The segments of `parts` glued together with `'/'` between neighbours.
pub open spec fn glue(parts: Seq<Seq<char>>) -> Seq<char>
    decreases parts.len(),
{
    if parts.len() == 0 {
        Seq::empty()
    } else if parts.len() == 1 {
        parts[0]
    } else {
        glue(parts.drop_last()) + seq!['/'] + parts.last()
    }
}

/// What `join_paths` computes: both sides are taken apart into their
/// segments, the empty ones are discarded, and the rest are reassembled into
/// one absolute path.
pub open spec fn join_paths_spec(l: Seq<char>, r: Seq<char>) -> Seq<char> {
    seq!['/'] + glue(keep_nonempty(split_path(l)) + keep_nonempty(split_path(r)))
}

/// Drops the empty strings of `parts`, keeping the order of the rest.
fn drop_empty(parts: Vec<String>) -> (kept: Vec<String>)
    ensures
        views(kept@) == keep_nonempty(views(parts@)),
{
    let mut kept: Vec<String> = Vec::new();
    let mut i: usize = 0;
    while i < parts.len()
        invariant
            i <= parts.len(),
            views(kept@) == keep_nonempty(views(parts@).subrange(0, i as int)),
        decreases parts.len() - i,
    {
        proof {
            let pre = views(parts@).subrange(0, i as int);
            let ext = views(parts@).subrange(0, i as int + 1);
            assert(ext.drop_last() =~= pre);
            assert(ext.last() == parts@[i as int]@);
        }
        if parts[i].as_str().unicode_len() > 0 {
            kept.push(parts[i].clone());
            proof {
                assert(views(kept@) =~= keep_nonempty(views(parts@).subrange(0, i as int + 1)));
            }
        } else {
            proof {
                assert(views(kept@) =~= keep_nonempty(views(parts@).subrange(0, i as int + 1)));
            }
        }
        i = i + 1;
    }
    proof {
        assert(views(parts@).subrange(0, parts@.len() as int) =~= views(parts@));
    }
    kept
}

/// Glues `parts` together with `'/'` between neighbours.
fn glue_segments(parts: &Vec<String>) -> (r: String)
    ensures
        r@ == glue(views(parts@)),
{
    if parts.len() == 0 {
        return String::new();
    }
    let mut r = parts[0].clone();
    let mut i: usize = 1;
    while i < parts.len()
        invariant
            1 <= i <= parts.len(),
            r@ == glue(views(parts@).subrange(0, i as int)),
        decreases parts.len() - i,
    {
        proof {
            let pre = views(parts@).subrange(0, i as int);
            let ext = views(parts@).subrange(0, i as int + 1);
            assert(ext.drop_last() =~= pre);
            assert(ext.last() == parts@[i as int]@);
        }
        push_char(&mut r, '/');
        r.append(parts[i].as_str());
        i = i + 1;
    }
    proof {
        assert(views(parts@).subrange(0, parts@.len() as int) =~= views(parts@));
        assert(views(parts@).subrange(0, 1) =~= seq![parts@[0]@]);
    }
    r
}

/// Splits both sides on `'/'`, discards the empty segments, and reassembles
/// everything into a single absolute path: joining `"a/b"` and `"c"` gives
/// `"/a/b/c"`, and a leading `'/'` on either side makes no difference.
pub fn join_paths(left: &str, right: &str) -> (r: String)
    ensures
        r@ == join_paths_spec(left@, right@),
{
    let mut parts = drop_empty(split_segments(left));
    let mut right_parts = drop_empty(split_segments(right));
    parts.append(&mut right_parts);
    proof {
        assert(views(parts@) =~= keep_nonempty(split_path(left@)) + keep_nonempty(
            split_path(right@),
        ));
    }
    let glued = glue_segments(&parts);
    let mut r = String::new();
    push_char(&mut r, '/');
    r.append(glued.as_str());
    proof {
        assert(r@ =~= join_paths_spec(left@, right@));
    }
    r
}

/// What joining with `PathBuf::join` computes on Unix paths: an absolute
/// right-hand side replaces the left-hand side; otherwise the two are
/// concatenated with a single `'/'` added when the left-hand side does not
/// already end in one.
pub open spec fn pathbuf_join(l: Seq<char>, r: Seq<char>) -> Seq<char> {
    if r.len() > 0 && r[0] == '/' {
        r
    } else if l.len() == 0 {
        r
    } else if l.last() == '/' {
        l + r
    } else {
        l + seq!['/'] + r
    }
}

/// Joins `l` and `r` the way `PathBuf::join` does on Unix paths.
pub fn path_join(l: &str, r: &str) -> (res: String)
    ensures
        res@ == pathbuf_join(l@, r@),
{
    let rn = r.unicode_len();
    if rn > 0 && r.get_char(0) == '/' {
        return r.to_owned();
    }
    let ln = l.unicode_len();
    if ln == 0 {
        return r.to_owned();
    }
    let mut res = l.to_owned();
    if l.get_char(ln - 1) != '/' {
        push_char(&mut res, '/');
    }
    res.append(r);
    proof {
        assert(res@ =~= pathbuf_join(l@, r@));
    }
    res
}

/// Joins the home directory and `path` unconditionally, without checking
/// that anything exists and without canonicalizing — the way install
/// targets, which are not expected to exist yet, are addressed.
pub fn prepend_home(home: &str, path: &str) -> (r: String)
    ensures
        r@ == pathbuf_join(home@, path@),
{
    path_join(home, path)
}

/// The views of optional strings.
pub open spec fn opt_views(v: Seq<Option<String>>) -> Seq<Option<Seq<char>>> {
    v.map_values(
        |o: Option<String>|
            match o {
                Some(s) => Some(s@),
                None => None,
            },
    )
}

/// The view of an optional string.
pub open spec fn opt_view(o: Option<&str>) -> Option<Seq<char>> {
    match o {
        Some(s) => Some(s@),
        None => None,
    }
}

/// The candidate that resolution hands to canonicalization: the path itself
/// when it already exists as given, the home-prefixed path otherwise — and
/// nothing when the home directory is wanted but unknown.
pub open spec fn candidate_spec(
    path: Seq<char>,
    home: Option<Seq<char>>,
    exists_as_given: bool,
) -> Option<Seq<char>> {
    if exists_as_given {
        Some(path)
    } else {
        match home {
            Some(h) => Some(pathbuf_join(h, path)),
            None => None,
        }
    }
}

/// What resolution makes of the canonicalization outcome: the canonical
/// path on success, nothing on failure.
pub open spec fn resolved_value(canon: Result<Seq<char>, Seq<char>>) -> Option<Seq<char>> {
    match canon {
        Ok(c) => Some(c),
        Err(_) => None,
    }
}

/// Picks the path that resolution canonicalizes: the path itself when it
/// exists as given, otherwise the path joined under the home directory.
pub fn resolve_candidate(path: &str, home: Option<&str>, exists_as_given: bool) -> (c: Result<
    String,
    Error,
>)
    ensures
        candidate_spec(path@, opt_view(home), exists_as_given) matches Some(c0) ==> (c matches Ok(
            p,
        ) && p@ == c0),
        candidate_spec(path@, opt_view(home), exists_as_given) is None ==> (c matches Err(e)
            && e matches Error::ResolvePath { path: p, err: _ } && p@ == path@),
{
    if exists_as_given {
        Ok(path.to_owned())
    } else {
        match home {
            Some(h) => Ok(path_join(h, path)),
            None => Err(
                Error::ResolvePath {
                    path: path.to_owned(),
                    err: "the home directory could not be determined".to_owned(),
                },
            ),
        }
    }
}

/// The view of a canonicalization outcome.
pub open spec fn canon_view(canon: Result<String, String>) -> Result<Seq<char>, Seq<char>> {
    match canon {
        Ok(c) => Ok(c@),
        Err(e) => Err(e@),
    }
}

/// Turns the canonicalization outcome into the result of resolution: the
/// canonical path on success, a resolution error naming the requested path on
/// failure.
pub fn finish_resolution(path: &str, canon: Result<String, String>) -> (r: Result<String, Error>)
    ensures
        resolved_value(canon_view(canon)) matches Some(c0) ==> (r matches Ok(p) && p@ == c0),
        resolved_value(canon_view(canon)) is None ==> (r matches Err(e) && (e matches
            Error::ResolvePath { path: p, err: m } && (p@ == path@ && (canon matches Err(e0)
            && m@ == e0@)))),
{
    match canon {
        Ok(c) => Ok(c),
        Err(e) => Err(Error::ResolvePath { path: path.to_owned(), err: e }),
    }
}

/// A path in absolute form: on Unix, one that begins at the root.
pub open spec fn is_absolute(p: Seq<char>) -> bool {
    p.len() > 0 && p[0] == '/'
}

/// Relies on `std::path::Path::exists`: whether the path points at an
/// existing entity on disk. The answer depends on the state of the
/// filesystem, so nothing is assumed of it.
#[verifier::external_body]
fn probe_exists(path: &str) -> bool {
    std::path::Path::new(path).exists()
}

/// Relies on `std::path::Path::canonicalize`: the canonical, absolute form
/// of the path, with symlinks, `.` and `..` resolved, or an error when the
/// path does not exist or cannot be read. Which of the two comes back, and
/// the successful value, depend on the state of the filesystem; all that
/// is assumed is what the documentation promises of every success — the
/// returned path is absolute, so on Unix it begins with `'/'`.
#[verifier::external_body]
fn canonicalize_probe(path: &str) -> (r: Result<String, String>)
    ensures
        r matches Ok(p) ==> is_absolute(p@),
{
    match std::path::Path::new(path).canonicalize() {
        Ok(p) => Ok(p.to_string_lossy().into_owned()),
        Err(e) => Err(e.to_string()),
    }
}

/// Relies on `directories::BaseDirs`: the user's home directory as the
/// platform reports it, or `None` when it cannot be determined. The answer
/// depends on the environment, so nothing is assumed of it.
#[verifier::external_body]
pub fn home_dir_path() -> Option<String> {
    directories::BaseDirs::new().map(|b| b.home_dir().to_string_lossy().into_owned())
}

/// Relies on `directories::BaseDirs`: the user's configuration directory
/// under the platform's base-directory conventions, or `None` when it
/// cannot be determined. The answer depends on the environment, so nothing
/// is assumed of it.
#[verifier::external_body]
pub fn config_dir_path() -> Option<String> {
    directories::BaseDirs::new().map(|b| b.config_dir().to_string_lossy().into_owned())
}

/// Relies on `directories::BaseDirs`: the user's local data directory
/// under the platform's base-directory conventions, or `None` when it
/// cannot be determined. The answer depends on the environment, so nothing
/// is assumed of it.
#[verifier::external_body]
pub fn data_local_dir_path() -> Option<String> {
    directories::BaseDirs::new().map(|b| b.data_local_dir().to_string_lossy().into_owned())
}

/// Resolves a possibly relative, possibly home-elided path into an absolute
/// canonical one: the path is kept when it exists as given and prefixed with
/// the home directory otherwise, and the candidate is then canonicalized.
/// The probes ask the filesystem, so the successful value cannot be pinned
/// down here; `resolve_candidate` and `finish_resolution` carry the exact
/// contracts of the decisions around the probes; a successful value is
/// always absolute. An error always names the path that was asked for,
/// and resolution changes nothing on disk.
pub fn resolve_path(path: &str) -> (r: Result<String, Error>)
    ensures
        r matches Ok(p) ==> is_absolute(p@),
        r matches Err(e) ==> (e matches Error::ResolvePath { path: p, err: _ } && p@ == path@),
{
    let exists = probe_exists(path);
    let cand_res = if exists {
        resolve_candidate(path, None, true)
    } else {
        let home = home_dir_path();
        match &home {
            Some(h) => resolve_candidate(path, Some(h.as_str()), false),
            None => resolve_candidate(path, None, false),
        }
    };
    let candidate = match cand_res {
        Ok(c) => c,
        Err(e) => {
            return Err(e);
        },
    };
    finish_resolution(path, canonicalize_probe(candidate.as_str()))
}

/// The path an already-existing path resolves through is the path itself:
/// it is its own candidate, and since canonicalizing a canonical path
/// returns it unchanged, resolution hands it back unchanged.
pub proof fn lemma_resolution_idempotent(path: Seq<char>, home: Option<Seq<char>>)
    ensures
        candidate_spec(path, home, true) == Some(path),
        resolved_value(Ok(path)) == Some(path),
{
}

/// A path that does not exist as given resolves through its home-prefixed
/// candidate: the candidate is exactly the home join, and a successful
/// canonicalization of it is what resolution returns.
pub proof fn lemma_home_prefix_fallback(path: Seq<char>, home: Seq<char>, canon: Seq<char>)
    ensures
        candidate_spec(path, Some(home), false) == Some(pathbuf_join(home, path)),
        resolved_value(Ok(canon)) == Some(canon),
{
}

/// When canonicalization fails — the path exists neither as given nor under
/// home — resolution yields no value, only an error; nothing on disk is
/// touched along the way.
pub proof fn lemma_resolution_failure(err: Seq<char>)
    ensures
        resolved_value(Err(err)) is None,
{
}

} // verus!
