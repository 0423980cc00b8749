//! Where the entries of a package archive may be written.
//!
//! Registry archives wrap their content in a top-level `package` folder, or
//! root it at `/`. The wrapper is removed only where the entry path begins
//! with it (`package` followed by `/` or by nothing; a path that begins with
//! `./` keeps its `package` component). What is left is cut into components,
//! and the entry is written only when they form a non-empty relative path with
//! no parent (`..`) component.

use vstd::prelude::*;
use crate::error::PmError;
use crate::text::{owned, same_text};

verus! {

/// What gzip decoding, as `flate2` performs it, makes of a byte string:
/// `None` when the bytes are not a valid gzip stream.
pub uninterp spec fn gunzip_of(data: Seq<u8>) -> Option<Seq<u8>>;

/// Relies on `flate2::read::GzDecoder` read to its end: the decoded bytes, or
/// an error, depend on the input bytes alone.
#[verifier::external_body]
fn gunzip(data: &[u8]) -> (r: Option<Vec<u8>>)
    ensures
        r is None <==> gunzip_of(data@) is None,
        r matches Some(v) ==> gunzip_of(data@) == Some(v@),
{
    let mut out = Vec::new();
    match std::io::Read::read_to_end(&mut flate2::read::GzDecoder::new(data), &mut out) {
        Ok(_) => Some(out),
        Err(_) => None,
    }
}

/// Decompresses a gzip archive; `CorruptArchive` when it cannot be decoded.
pub fn decompress_archive(data: &Vec<u8>) -> (r: Result<Vec<u8>, PmError>)
    ensures
        r is Err <==> gunzip_of(data@) is None,
        r matches Err(e) ==> e == PmError::CorruptArchive,
        r matches Ok(v) ==> gunzip_of(data@) == Some(v@),
{
    match gunzip(data.as_slice()) {
        Some(v) => Ok(v),
        None => Err(PmError::CorruptArchive),
    }
}

/// The segments of a path text between `/` separators, empty ones included.
pub open spec fn raw_segments(s: Seq<char>) -> Seq<Seq<char>>
    decreases s.len(),
{
    if s.len() == 0 {
        seq![Seq::empty()]
    } else {
        let p = raw_segments(s.drop_last());
        if s.last() == '/' {
            p.push(Seq::empty())
        } else {
            p.update(p.len() - 1, p.last().push(s.last()))
        }
    }
}

/// The text `.`.
pub open spec fn current_dir() -> Seq<char> {
    seq!['.']
}

/// The text `..`.
pub open spec fn parent_dir() -> Seq<char> {
    seq!['.', '.']
}

/// The text `package`, the wrapper folder of registry archives.
pub open spec fn wrapper_dir() -> Seq<char> {
    seq!['p', 'a', 'c', 'k', 'a', 'g', 'e']
}

/// A segment that names something: neither empty nor `.`.
pub open spec fn is_component(seg: Seq<char>) -> bool {
    seg.len() > 0 && seg != current_dir()
}

/// The components of a path text, in order.
pub open spec fn components(s: Seq<char>) -> Seq<Seq<char>> {
    raw_segments(s).filter(|seg: Seq<char>| is_component(seg))
}

/// The path text begins with the wrapper folder: `package`, then `/` or nothing.
pub open spec fn is_wrapped(s: Seq<char>) -> bool {
    &&& s.len() >= 7
    &&& s.take(7) == wrapper_dir()
    &&& (s.len() == 7 || s[7] == '/')
}

/// The path text once a leading wrapper folder and its separator are cut off.
pub open spec fn unwrapped(s: Seq<char>) -> Seq<char> {
    if is_wrapped(s) {
        if s.len() == 7 { Seq::empty() } else { s.skip(8) }
    } else {
        s
    }
}

/// The components left once the archive's wrapper is removed. A rooted path
/// loses only its root, since components leave out empty segments.
pub open spec fn stripped_components(s: Seq<char>) -> Seq<Seq<char>> {
    components(unwrapped(s))
}

/// Some component is `..`.
pub open spec fn has_parent_component(c: Seq<Seq<char>>) -> bool {
    exists|k: int| 0 <= k < c.len() && c[k] == parent_dir()
}

/// What to do with one archive entry.
pub enum EntryPlan {
    /// Write the entry at these components below the target directory.
    Write(Vec<String>),
    /// The entry is the wrapper folder itself: nothing to write.
    Skip,
    /// The entry's path climbs out of the target directory: refused, with a warning.
    Reject,
    /// The entry's header or path could not be read: passed over, with a warning.
    Unreadable,
}

/// The plan for an entry with path `path`.
pub open spec fn plan_matches(path: Seq<char>, r: EntryPlan) -> bool {
    let c = stripped_components(path);
    &&& (c.len() == 0 ==> r is Skip)
    &&& (c.len() > 0 && has_parent_component(c) ==> r is Reject)
    &&& (c.len() > 0 && !has_parent_component(c) ==> (r matches EntryPlan::Write(w) && w@.map_values(
        |x: String| x@,
    ) == c))
}

proof fn lemma_raw_segments(s: Seq<char>)
    ensures
        raw_segments(s).len() >= 1,
        forall|k: int, j: int|
            0 <= k < raw_segments(s).len() && 0 <= j < raw_segments(s)[k].len()
                ==> raw_segments(s)[k][j] != '/',
    decreases s.len(),
{
    if s.len() > 0 {
        lemma_raw_segments(s.drop_last());
        let p = raw_segments(s.drop_last());
        if s.last() != '/' {
            let q = raw_segments(s);
            assert forall|k: int, j: int| 0 <= k < q.len() && 0 <= j < q[k].len() implies q[k][j]
                != '/' by {
                if k == p.len() - 1 && j == p.last().len() {
                } else if k == p.len() - 1 {
                    assert(q[k][j] == p[k][j]);
                } else {
                    assert(q[k] == p[k]);
                }
            }
        } else {
            let q = raw_segments(s);
            assert forall|k: int, j: int| 0 <= k < q.len() && 0 <= j < q[k].len() implies q[k][j]
                != '/' by {
                if k < p.len() {
                    assert(q[k] == p[k]);
                }
            }
        }
    }
}

/// Appends the segment `path[start..end]` to `out` when it is a component.
fn close_segment(path: &str, start: usize, end: usize, out: &mut Vec<String>)
    requires
        start <= end <= path@.len(),
    ensures
        is_component(path@.subrange(start as int, end as int)) ==> final(out)@.map_values(
            |x: String| x@,
        ) == old(out)@.map_values(|x: String| x@).push(path@.subrange(start as int, end as int)),
        !is_component(path@.subrange(start as int, end as int)) ==> final(out)@ == old(out)@,
{
    let seg = path.substring_char(start, end);
    proof {
        reveal_strlit(".");
        assert("."@ =~= current_dir());
    }
    let ghost before = out@;
    if seg.unicode_len() > 0 && !same_text(seg, ".") {
        out.push(owned(seg));
        assert(out@.map_values(|x: String| x@) =~= before.map_values(|x: String| x@).push(seg@));
    }
}

/// The components of a path text.
pub fn split_components(path: &str) -> (r: Vec<String>)
    ensures
        r@.map_values(|x: String| x@) == components(path@),
{
    let n = path.unicode_len();
    let mut out: Vec<String> = Vec::new();
    let mut start: usize = 0;
    let mut i: usize = 0;
    while i < n
        invariant
            n == path@.len(),
            start <= i <= n,
            raw_segments(path@.take(i as int)).len() >= 1,
            raw_segments(path@.take(i as int)).last() == path@.subrange(start as int, i as int),
            out@.map_values(|x: String| x@) == raw_segments(path@.take(i as int)).drop_last().filter(
                |seg: Seq<char>| is_component(seg),
            ),
        decreases n - i,
    {
        let ghost done = raw_segments(path@.take(i as int));
        let ghost old_out = out@;
        proof {
            assert(path@.take(i as int + 1).drop_last() =~= path@.take(i as int));
            assert(path@.take(i as int + 1).last() == path@[i as int]);
        }
        if path.get_char(i) == '/' {
            close_segment(path, start, i, &mut out);
            proof {
                reveal(Seq::filter);
                let next = raw_segments(path@.take(i as int + 1));
                assert(next == done.push(Seq::empty()));
                assert(next.drop_last() =~= done);
                assert(done.filter(|seg: Seq<char>| is_component(seg)) == (if is_component(done.last()) {
                    done.drop_last().filter(|seg: Seq<char>| is_component(seg)).push(done.last())
                } else {
                    done.drop_last().filter(|seg: Seq<char>| is_component(seg))
                }));
                assert(out@.map_values(|x: String| x@) =~= next.drop_last().filter(
                    |seg: Seq<char>| is_component(seg),
                ));
                assert(path@.subrange(i as int + 1, i as int + 1) =~= Seq::<char>::empty());
            }
            start = i + 1;
        } else {
            proof {
                let next = raw_segments(path@.take(i as int + 1));
                assert(next.drop_last() =~= done.drop_last());
                assert(path@.subrange(start as int, i as int + 1) =~= path@.subrange(
                    start as int,
                    i as int,
                ).push(path@[i as int]));
            }
        }
        i = i + 1;
    }
    let ghost done = raw_segments(path@.take(n as int));
    close_segment(path, start, n, &mut out);
    proof {
        reveal(Seq::filter);
        assert(path@.take(n as int) =~= path@);
        assert(out@.map_values(|x: String| x@) =~= done.filter(|seg: Seq<char>| is_component(seg)));
    }
    out
}

/// Whether some component is `..`.
fn any_parent(c: &Vec<String>) -> (r: bool)
    ensures
        r == has_parent_component(c@.map_values(|x: String| x@)),
{
    let mut k: usize = 0;
    while k < c.len()
        invariant
            k <= c@.len(),
            forall|j: int| 0 <= j < k ==> c@[j]@ != parent_dir(),
        decreases c@.len() - k,
    {
        proof {
            reveal_strlit("..");
            assert(".."@ =~= parent_dir());
        }
        if same_text(c[k].as_str(), "..") {
            assert(c@.map_values(|x: String| x@)[k as int] == parent_dir());
            return true;
        }
        k = k + 1;
    }
    assert(!has_parent_component(c@.map_values(|x: String| x@)));
    false
}

/// Decides where an archive entry with path `path` is written, if anywhere.
pub fn plan_entry(path: &str) -> (r: EntryPlan)
    ensures
        plan_matches(path@, r),
{
    let n = path.unicode_len();
    proof {
        reveal_strlit("package");
        assert("package"@ =~= wrapper_dir());
    }
    let wrapped = n >= 7 && same_text(path.substring_char(0, 7), "package") && (n == 7
        || path.get_char(7) == '/');
    let body = if wrapped {
        if n == 7 {
            path.substring_char(7, 7)
        } else {
            path.substring_char(8, n)
        }
    } else {
        path
    };
    proof {
        assert(wrapped == is_wrapped(path@));
        assert(body@ =~= unwrapped(path@));
    }
    let rest = split_components(body);
    if rest.len() == 0 {
        EntryPlan::Skip
    } else if any_parent(&rest) {
        EntryPlan::Reject
    } else {
        EntryPlan::Write(rest)
    }
}

/// Plans every entry of an archive, in archive order; `None` stands for an
/// entry whose header or path could not be read.
pub fn plan_entries(paths: &Vec<Option<String>>) -> (r: Vec<EntryPlan>)
    ensures
        r@.len() == paths@.len(),
        forall|i: int| 0 <= i < paths@.len() ==> (match #[trigger] paths@[i] {
            None => r@[i] is Unreadable,
            Some(p) => plan_matches(p@, r@[i]),
        }),
{
    let mut out: Vec<EntryPlan> = Vec::new();
    let mut i: usize = 0;
    while i < paths.len()
        invariant
            i <= paths@.len(),
            out@.len() == i,
            forall|j: int| 0 <= j < i ==> (match #[trigger] paths@[j] {
                None => out@[j] is Unreadable,
                Some(p) => plan_matches(p@, out@[j]),
            }),
        decreases paths@.len() - i,
    {
        match &paths[i] {
            None => out.push(EntryPlan::Unreadable),
            Some(p) => out.push(plan_entry(p.as_str())),
        }
        i = i + 1;
    }
    out
}

/// An entry is written only when its stripped path is a non-empty relative
/// path whose components are neither empty nor `..` and hold no separator, so
/// that nothing lands outside the target directory; an entry with a `..`
/// component is refused.
pub proof fn lemma_written_paths_stay_inside(path: Seq<char>, r: EntryPlan)
    requires
        plan_matches(path, r),
    ensures
        r matches EntryPlan::Write(w) ==> {
            let c = w@.map_values(|x: String| x@);
            &&& c.len() > 0
            &&& forall|k: int| 0 <= k < c.len() ==> {
                &&& c[k].len() > 0
                &&& c[k] != parent_dir()
                &&& forall|j: int| 0 <= j < c[k].len() ==> c[k][j] != '/'
            }
        },
        has_parent_component(stripped_components(path)) ==> r is Reject,
{
    let t = unwrapped(path);
    lemma_raw_segments(t);
    let raw = raw_segments(t);
    let pred = |seg: Seq<char>| is_component(seg);
    let comps = components(t);
    assert forall|k: int| 0 <= k < comps.len() implies comps[k].len() > 0 && forall|j: int|
        0 <= j < comps[k].len() ==> comps[k][j] != '/' by {
        raw.lemma_filter_pred(pred, k);
        assert(comps.contains(comps[k]));
        raw.lemma_filter_contains_rev(pred, comps[k]);
        let m = choose|m: int| 0 <= m < raw.len() && raw[m] == comps[k];
    }
}

} // verus!
