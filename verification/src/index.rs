//! The source-key index: every non-empty path segment of a declared source
//! becomes a key, and each key maps to the first declared source whose text
//! contains it. A user can then name a source by any unique portion of its
//! path, such as `.bashrc` instead of the full declared path.

use vstd::prelude::*;

use crate::paths::{lemma_split_path_len, split_path, split_segments, views};

verus! {

/// `needle` occurs somewhere in `hay` as a contiguous run of characters.
pub open spec fn is_substring(needle: Seq<char>, hay: Seq<char>) -> bool {
    exists|i: int|
        0 <= i && i + needle.len() <= hay.len() && #[trigger] hay.subrange(i, i + needle.len())
            == needle
}

/// The characters of `s`, one by one.
fn to_chars(s: &str) -> (v: Vec<char>)
    ensures
        v@ == s@,
{
    let n = s.unicode_len();
    let mut v: Vec<char> = Vec::new();
    let mut i: usize = 0;
    while i < n
        invariant
            i <= n,
            n == s@.len(),
            v@ == s@.subrange(0, i as int),
        decreases n - i,
    {
        v.push(s.get_char(i));
        proof {
            assert(v@ =~= s@.subrange(0, i as int + 1));
        }
        i = i + 1;
    }
    proof {
        assert(s@.subrange(0, n as int) =~= s@);
    }
    v
}

/// Whether `needle` matches `hay` exactly at position `at`.
fn match_at(hay: &Vec<char>, needle: &Vec<char>, at: usize) -> (r: bool)
    requires
        at + needle@.len() <= hay@.len(),
    ensures
        r == (hay@.subrange(at as int, at as int + needle@.len() as int) == needle@),
{
    let n = needle.len();
    let hl = hay.len();
    let mut j: usize = 0;
    while j < n
        invariant
            j <= n,
            n == needle@.len(),
            hl == hay@.len(),
            at + n <= hl,
            forall|k: int| 0 <= k < j ==> hay@[at + k] == needle@[k],
        decreases n - j,
    {
        if hay[at + j] != needle[j] {
            proof {
                assert(hay@.subrange(at as int, at as int + n as int)[j as int] != needle@[
                    j as int
                ]);
            }
            return false;
        }
        j = j + 1;
    }
    proof {
        assert(hay@.subrange(at as int, at as int + n as int) =~= needle@);
    }
    true
}

/// Whether `needle` occurs anywhere in `hay`, the way `str::contains` asks
/// whether one string contains another.
pub fn has_substring(hay: &str, needle: &str) -> (r: bool)
    ensures
        r == is_substring(needle@, hay@),
{
    let hay_chars = to_chars(hay);
    let needle_chars = to_chars(needle);
    let h = hay_chars.len();
    let n = needle_chars.len();
    if n > h {
        proof {
            assert(!is_substring(needle@, hay@));
        }
        return false;
    }
    if n == 0 {
        proof {
            let l = needle@.len() as int;
            assert(hay@.subrange(0, 0 + l) =~= needle@);
            assert(is_substring(needle@, hay@));
        }
        return true;
    }
    let mut i: usize = 0;
    while i <= h - n
        invariant
            1 <= n <= h,
            h == hay@.len(),
            n == needle@.len(),
            hay_chars@ == hay@,
            needle_chars@ == needle@,
            i <= h - n + 1,
            forall|k: int|
                0 <= k < i ==> #[trigger] hay@.subrange(k, k + needle@.len()) != needle@,
        decreases h - n - i + 1,
    {
        if match_at(&hay_chars, &needle_chars, i) {
            return true;
        }
        i = i + 1;
    }
    proof {
        assert forall|k: int|
            0 <= k && k + needle@.len() <= hay@.len() implies #[trigger] hay@.subrange(
            k,
            k + needle@.len(),
        ) != needle@ by {
            assert(k < i);
        }
    }
    false
}

/// A substring of `h` still occurs in `h` once a character is appended.
proof fn lemma_substring_extend(n: Seq<char>, h: Seq<char>, c: char)
    requires
        is_substring(n, h),
    ensures
        is_substring(n, h.push(c)),
{
    let i = choose|i: int|
        0 <= i && i + n.len() <= h.len() && #[trigger] h.subrange(i, i + n.len()) == n;
    assert(h.push(c).subrange(i, i + n.len()) =~= h.subrange(i, i + n.len()));
    assert(h.push(c).subrange(i, i + n.len()) == n);
}

/// Every segment of a split path occurs in the path itself, and the last
/// segment sits at its very end.
proof fn lemma_split_segments_occur(s: Seq<char>)
    ensures
        forall|k: int|
            0 <= k < split_path(s).len() ==> is_substring(#[trigger] split_path(s)[k], s),
        split_path(s).last() == s.subrange(
            s.len() as int - split_path(s).last().len() as int,
            s.len() as int,
        ),
    decreases s.len(),
{
    lemma_split_path_len(s);
    if s.len() == 0 {
        assert(s.subrange(0, 0) =~= Seq::<char>::empty());
        assert(split_path(s).last() == s.subrange(
            s.len() as int - split_path(s).last().len() as int,
            s.len() as int,
        ));
        assert forall|k: int|
            0 <= k < split_path(s).len() implies is_substring(
            #[trigger] split_path(s)[k],
            s,
        ) by {
            let p = split_path(s)[k];
            assert(s.subrange(0, 0 as int + p.len()) == p);
        }
    } else {
        let s0 = s.drop_last();
        let c = s.last();
        lemma_split_segments_occur(s0);
        lemma_split_path_len(s0);
        assert(s0.push(c) =~= s);
        let parts0 = split_path(s0);
        let last0 = parts0.last();
        if c == '/' {
            let parts = parts0.push(Seq::<char>::empty());
            assert(split_path(s) == parts);
            assert(s.subrange(s.len() as int, s.len() as int) =~= Seq::<char>::empty());
            assert forall|k: int|
                0 <= k < parts.len() implies is_substring(#[trigger] parts[k], s) by {
                if k < parts0.len() {
                    assert(parts[k] == parts0[k]);
                    lemma_substring_extend(parts0[k], s0, c);
                } else {
                    assert(parts[k] == Seq::<char>::empty());
                    assert(s.subrange(0, 0) =~= Seq::<char>::empty());
                    assert(s.subrange(0, 0 as int + parts[k].len()) == parts[k]);
                }
            }
        } else {
            let newlast = last0.push(c);
            let parts = parts0.update(parts0.len() - 1, newlast);
            assert(split_path(s) == parts);
            assert(parts.last() == newlast);
            let start = s.len() as int - newlast.len() as int;
            assert(last0 == s0.subrange(
                s0.len() as int - last0.len() as int,
                s0.len() as int,
            ));
            assert(newlast =~= s.subrange(start, s.len() as int)) by {
                assert forall|j: int| 0 <= j < newlast.len() implies newlast[j] == s.subrange(
                    start,
                    s.len() as int,
                )[j] by {
                    if j < last0.len() {
                        assert(newlast[j] == last0[j]);
                        assert(last0[j] == s0[s0.len() as int - last0.len() as int + j]);
                    }
                }
            }
            assert forall|k: int|
                0 <= k < parts.len() implies is_substring(#[trigger] parts[k], s) by {
                if k < parts0.len() - 1 {
                    assert(parts[k] == parts0[k]);
                    lemma_substring_extend(parts0[k], s0, c);
                } else {
                    assert(parts[k] == newlast);
                    assert(s.subrange(start, start + newlast.len()) == newlast);
                }
            }
        }
    }
}

/// The first declared source whose text contains `key` as a substring.
pub open spec fn first_source_containing(
    sources: Seq<Seq<char>>,
    key: Seq<char>,
) -> Option<Seq<char>>
    decreases sources.len(),
{
    if sources.len() == 0 {
        None
    } else if is_substring(key, sources[0]) {
        Some(sources[0])
    } else {
        first_source_containing(sources.drop_first(), key)
    }
}

/// When some source contains `key`, the first-containing search finds one.
proof fn lemma_first_source_exists(sources: Seq<Seq<char>>, key: Seq<char>)
    requires
        exists|i: int| 0 <= i < sources.len() && is_substring(key, #[trigger] sources[i]),
    ensures
        first_source_containing(sources, key) is Some,
    decreases sources.len(),
{
    let i = choose|i: int| 0 <= i < sources.len() && is_substring(key, #[trigger] sources[i]);
    if !is_substring(key, sources[0]) {
        assert(i != 0);
        assert(sources.drop_first()[i - 1] == sources[i]);
        lemma_first_source_exists(sources.drop_first(), key);
    }
}

/// Finds the first source whose text contains `key`.
fn find_first_containing(sources: &Vec<String>, key: &str) -> (r: Option<String>)
    ensures
        r is Some <==> first_source_containing(views(sources@), key@) is Some,
        r matches Some(v) ==> first_source_containing(views(sources@), key@) == Some(v@),
{
    proof {
        assert(views(sources@).skip(0) =~= views(sources@));
    }
    let mut i: usize = 0;
    while i < sources.len()
        invariant
            i <= sources@.len(),
            first_source_containing(views(sources@), key@) == first_source_containing(
                views(sources@).skip(i as int),
                key@,
            ),
        decreases sources@.len() - i,
    {
        proof {
            assert(views(sources@).skip(i as int)[0] == sources@[i as int]@);
        }
        if has_substring(sources[i].as_str(), key) {
            return Some(sources[i].clone());
        }
        proof {
            assert(views(sources@).skip(i as int).drop_first() =~= views(sources@).skip(
                i as int + 1,
            ));
        }
        i = i + 1;
    }
    proof {
        assert(views(sources@).skip(sources@.len() as int) =~= Seq::<Seq<char>>::empty());
    }
    None
}

/// Every segment of every source, in declaration order.
pub open spec fn all_segments(sources: Seq<Seq<char>>) -> Seq<Seq<char>>
    decreases sources.len(),
{
    if sources.len() == 0 {
        Seq::empty()
    } else {
        all_segments(sources.drop_last()) + split_path(sources.last())
    }
}

/// A key occurs among all segments exactly when it is a segment of some
/// source.
proof fn lemma_all_segments_contains(sources: Seq<Seq<char>>, key: Seq<char>)
    ensures
        all_segments(sources).contains(key) <==> exists|i: int|
            0 <= i < sources.len() && #[trigger] split_path(sources[i]).contains(key),
    decreases sources.len(),
{
    if sources.len() > 0 {
        let s0 = sources.drop_last();
        let a = all_segments(s0);
        let b = split_path(sources.last());
        lemma_all_segments_contains(s0, key);
        if all_segments(sources).contains(key) {
            let j = choose|j: int| 0 <= j < (a + b).len() && (a + b)[j] == key;
            if j < a.len() {
                assert(a[j] == key);
                assert(a.contains(key));
                let i = choose|i: int| 0 <= i < s0.len() && #[trigger] split_path(s0[i]).contains(
                    key,
                );
                assert(sources[i] == s0[i]);
                assert(split_path(sources[i]).contains(key));
            } else {
                assert(b[j - a.len()] == key);
                assert(split_path(sources[sources.len() - 1]).contains(key));
            }
        }
        if exists|i: int| 0 <= i < sources.len() && #[trigger] split_path(sources[i]).contains(
            key,
        ) {
            let i = choose|i: int|
                0 <= i < sources.len() && #[trigger] split_path(sources[i]).contains(key);
            if i < sources.len() - 1 {
                assert(sources[i] == s0[i]);
                assert(a.contains(key));
                let j = choose|j: int| 0 <= j < a.len() && a[j] == key;
                assert((a + b)[j] == key);
            } else {
                let j = choose|j: int| 0 <= j < b.len() && b[j] == key;
                assert((a + b)[a.len() + j] == key);
            }
            assert(all_segments(sources).contains(key));
        }
    }
}

/// Collects every segment of every source, in declaration order.
fn collect_segments(sources: &Vec<String>) -> (parts: Vec<String>)
    ensures
        views(parts@) == all_segments(views(sources@)),
{
    let mut parts: Vec<String> = Vec::new();
    let mut i: usize = 0;
    while i < sources.len()
        invariant
            i <= sources@.len(),
            views(parts@) == all_segments(views(sources@).subrange(0, i as int)),
        decreases sources@.len() - i,
    {
        proof {
            let vs = views(sources@);
            assert(vs.subrange(0, i as int + 1).drop_last() =~= vs.subrange(0, i as int));
            assert(vs.subrange(0, i as int + 1).last() == sources@[i as int]@);
        }
        let mut segs = split_segments(sources[i].as_str());
        parts.append(&mut segs);
        proof {
            assert(views(parts@) =~= all_segments(
                views(sources@).subrange(0, i as int + 1),
            ));
        }
        i = i + 1;
    }
    proof {
        assert(views(sources@).subrange(0, sources@.len() as int) =~= views(sources@));
    }
    parts
}

/// Whether two strings hold the same characters.
pub fn str_eq(a: &str, b: &str) -> (r: bool)
    ensures
        r == (a@ == b@),
{
    let n = a.unicode_len();
    if n != b.unicode_len() {
        return false;
    }
    let mut i: usize = 0;
    while i < n
        invariant
            i <= n,
            n == a@.len(),
            n == b@.len(),
            forall|k: int| 0 <= k < i ==> a@[k] == b@[k],
        decreases n - i,
    {
        if a.get_char(i) != b.get_char(i) {
            return false;
        }
        i = i + 1;
    }
    proof {
        assert(a@ =~= b@);
    }
    true
}

/// Appending an element to a sequence adds exactly that element to what the
/// sequence contains.
proof fn lemma_contains_push<A>(s: Seq<A>, x: A, k: A)
    ensures
        s.push(x).contains(k) <==> (s.contains(k) || k == x),
{
    if s.push(x).contains(k) {
        let j = choose|j: int| 0 <= j < s.push(x).len() && s.push(x)[j] == k;
        if j < s.len() {
            assert(s[j] == k);
        }
    }
    if s.contains(k) {
        let j = choose|j: int| 0 <= j < s.len() && s[j] == k;
        assert(s.push(x)[j] == k);
    }
    if k == x {
        assert(s.push(x)[s.len() as int] == k);
    }
}

/// `key` is a non-empty path segment of one of the sources.
pub open spec fn is_key_of(sources: Seq<Seq<char>>, key: Seq<char>) -> bool {
    key.len() > 0 && exists|i: int|
        0 <= i < sources.len() && #[trigger] split_path(sources[i]).contains(key)
}

/// The mapping a list of key/source entries stands for; were a key ever
/// repeated, the later entry would win, though the builder never repeats
/// one.
pub open spec fn entries_map(entries: Seq<(String, String)>) -> Map<Seq<char>, Seq<char>>
    decreases entries.len(),
{
    if entries.len() == 0 {
        Map::empty()
    } else {
        entries_map(entries.drop_last()).insert(entries.last().0@, entries.last().1@)
    }
}

/// Keys every non-empty path segment of the declared sources to the first
/// declared source whose text contains it.
#[derive(Debug)]
pub struct SourceIndex {
    entries: Vec<(String, String)>,
}

impl SourceIndex {
    /// The key-to-source mapping the index stands for.
    pub closed spec fn view(&self) -> Map<Seq<char>, Seq<char>> {
        entries_map(self.entries@)
    }

    /// Looks up the source a key stands for, as a selective install does.
    pub fn get(&self, key: &str) -> (r: Option<String>)
        ensures
            r matches Some(v) ==> self@.contains_key(key@) && v@ == self@[key@],
            r is None ==> !self@.contains_key(key@),
    {
        proof {
            assert(self.entries@.subrange(0, self.entries@.len() as int) =~= self.entries@);
        }
        let mut i: usize = self.entries.len();
        while i > 0
            invariant
                i <= self.entries@.len(),
                self@.contains_key(key@) == entries_map(
                    self.entries@.subrange(0, i as int),
                ).contains_key(key@),
                self@.contains_key(key@) ==> self@[key@] == entries_map(
                    self.entries@.subrange(0, i as int),
                )[key@],
            decreases i,
        {
            i = i - 1;
            proof {
                let pre = self.entries@.subrange(0, i as int);
                let ext = self.entries@.subrange(0, i as int + 1);
                assert(ext.drop_last() =~= pre);
                assert(ext.last() == self.entries@[i as int]);
            }
            if str_eq(self.entries[i].0.as_str(), key) {
                return Some(self.entries[i].1.clone());
            }
        }
        proof {
            assert(self.entries@.subrange(0, 0) =~= Seq::<(String, String)>::empty());
        }
        None
    }
}

/// Builds the index over the declared sources: every non-empty segment of
/// every source becomes a key, and each key maps to the first declared
/// source whose text contains it. Because substring containment decides the
/// value, a short key can match an earlier, unrelated source; the
/// first-found source wins, as documented.
pub fn build_index(sources: &Vec<String>) -> (idx: SourceIndex)
    ensures
        forall|k: Seq<char>| #[trigger] idx@.contains_key(k) <==> is_key_of(views(sources@), k),
        forall|k: Seq<char>| #[trigger]
            idx@.contains_key(k) ==> Some(idx@[k]) == first_source_containing(
                views(sources@),
                k,
            ),
{
    let parts = collect_segments(sources);
    let mut idx = SourceIndex { entries: Vec::new() };
    let mut i: usize = 0;
    while i < parts.len()
        invariant
            i <= parts@.len(),
            views(parts@) == all_segments(views(sources@)),
            forall|k: Seq<char>| #[trigger]
                idx@.contains_key(k) <==> (k.len() > 0 && views(parts@).subrange(
                    0,
                    i as int,
                ).contains(k)),
            forall|k: Seq<char>| #[trigger]
                idx@.contains_key(k) ==> Some(idx@[k]) == first_source_containing(
                    views(sources@),
                    k,
                ),
        decreases parts@.len() - i,
    {
        let ghost vp = views(parts@);
        let ghost pre = vp.subrange(0, i as int);
        let ghost ext = vp.subrange(0, i as int + 1);
        proof {
            assert(ext.drop_last() =~= pre);
            assert(ext =~= pre.push(vp[i as int]));
        }
        if parts[i].as_str().unicode_len() == 0 {
            proof {
                assert forall|k: Seq<char>| #[trigger]
                    idx@.contains_key(k) <==> (k.len() > 0 && ext.contains(k)) by {
                    lemma_contains_push(pre, vp[i as int], k);
                }
            }
        } else {
            let present = match idx.get(parts[i].as_str()) {
                Some(_) => true,
                None => false,
            };
            if present {
                proof {
                    assert forall|k: Seq<char>| #[trigger]
                        idx@.contains_key(k) <==> (k.len() > 0 && ext.contains(k)) by {
                        lemma_contains_push(pre, vp[i as int], k);
                    }
                }
            } else {
                match find_first_containing(sources, parts[i].as_str()) {
                    Some(v) => {
                        let ghost old_map = idx@;
                        let ghost old_entries = idx.entries@;
                        let key = parts[i].clone();
                        idx.entries.push((key, v));
                        proof {
                            assert(idx.entries@.drop_last() =~= old_entries);
                            assert(idx@ == old_map.insert(
                                vp[i as int],
                                idx.entries@.last().1@,
                            ));
                            assert forall|k: Seq<char>| #[trigger]
                                idx@.contains_key(k) <==> (k.len() > 0 && ext.contains(k)) by {
                                lemma_contains_push(pre, vp[i as int], k);
                            }
                        }
                    },
                    None => {
                        proof {
                            assert(vp[i as int] == parts@[i as int]@);
                            assert(vp.contains(vp[i as int]));
                            lemma_all_segments_contains(views(sources@), vp[i as int]);
                            let si = choose|si: int|
                                0 <= si < views(sources@).len() && #[trigger] split_path(
                                    views(sources@)[si],
                                ).contains(vp[i as int]);
                            lemma_split_segments_occur(views(sources@)[si]);
                            let sj = choose|sj: int|
                                0 <= sj < split_path(views(sources@)[si]).len() && split_path(
                                    views(sources@)[si],
                                )[sj] == vp[i as int];
                            assert(is_substring(vp[i as int], views(sources@)[si]));
                            lemma_first_source_exists(views(sources@), vp[i as int]);
                            assert(false);
                        }
                    },
                }
            }
        }
        i = i + 1;
    }
    proof {
        assert(views(parts@).subrange(0, parts@.len() as int) =~= views(parts@));
        assert forall|k: Seq<char>| #[trigger]
            idx@.contains_key(k) <==> is_key_of(views(sources@), k) by {
            lemma_all_segments_contains(views(sources@), k);
        }
    }
    idx
}

} // verus!
