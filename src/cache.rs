//! Archive cache bookkeeping: the file name of each `(name, version)` key,
//! and which entries an age-based sweep removes.

use vstd::prelude::*;
use crate::text::owned;

verus! {

/// The escape of one character: `%`, `/` and `@` become `%25`, `%2F` and `%40`.
pub open spec fn escape_char(c: char) -> Seq<char> {
    if c == '%' {
        seq!['%', '2', '5']
    } else if c == '/' {
        seq!['%', '2', 'F']
    } else if c == '@' {
        seq!['%', '4', '0']
    } else {
        seq![c]
    }
}

/// A text with every character escaped; the result holds no `/` and no `@`.
pub open spec fn escape(s: Seq<char>) -> Seq<char>
    decreases s.len(),
{
    if s.len() == 0 {
        Seq::empty()
    } else {
        escape(s.drop_last()) + escape_char(s.last())
    }
}

/// The cache file name of a package version: `<name>@<version>.tgz`, both
/// parts escaped, so that distinct keys never share a file.
pub open spec fn cache_key_of(name: Seq<char>, version: Seq<char>) -> Seq<char> {
    escape(name) + seq!['@'] + escape(version) + seq!['.', 't', 'g', 'z']
}

/// A character that escaping rewrites.
pub open spec fn is_escaped(c: char) -> bool {
    c == '%' || c == '/' || c == '@'
}

proof fn lemma_escape_front(s: Seq<char>)
    requires
        s.len() > 0,
    ensures
        escape(s) == escape_char(s[0]) + escape(s.drop_first()),
    decreases s.len(),
{
    if s.len() == 1 {
        assert(s.drop_last() =~= Seq::<char>::empty());
        assert(s.drop_first() =~= Seq::<char>::empty());
        assert(escape(s) =~= escape_char(s[0]) + escape(s.drop_first()));
    } else {
        lemma_escape_front(s.drop_last());
        assert(s.drop_last().drop_first() =~= s.drop_first().drop_last());
        assert(s.drop_first().last() == s.last());
        assert(escape(s) =~= escape_char(s[0]) + escape(s.drop_first()));
    }
}

proof fn lemma_escape_no_separator(s: Seq<char>)
    ensures
        forall|i: int| 0 <= i < escape(s).len() ==> escape(s)[i] != '@',
        escape(s).len() >= s.len(),
    decreases s.len(),
{
    if s.len() > 0 {
        lemma_escape_no_separator(s.drop_last());
        let a = escape(s.drop_last());
        let b = escape_char(s.last());
        assert forall|i: int| 0 <= i < escape(s).len() implies escape(s)[i] != '@' by {
            if i < a.len() {
                assert(escape(s)[i] == a[i]);
            } else {
                assert(escape(s)[i] == b[i - a.len()]);
            }
        }
    }
}

proof fn lemma_escape_injective(s1: Seq<char>, s2: Seq<char>)
    requires
        escape(s1) == escape(s2),
    ensures
        s1 == s2,
    decreases s1.len(),
{
    lemma_escape_no_separator(s1);
    lemma_escape_no_separator(s2);
    if s1.len() == 0 || s2.len() == 0 {
        if s1.len() > 0 {
            lemma_escape_front(s1);
        }
        if s2.len() > 0 {
            lemma_escape_front(s2);
        }
        assert(s1 =~= s2);
    } else {
        lemma_escape_front(s1);
        lemma_escape_front(s2);
        let e1 = escape_char(s1[0]);
        let e2 = escape_char(s2[0]);
        let t = escape(s1);
        assert(t[0] == e1[0]);
        assert(t[0] == e2[0]);
        assert(e1.len() == e2.len());
        assert(e1 =~= t.subrange(0, e1.len() as int));
        assert(e2 =~= t.subrange(0, e2.len() as int));
        assert(s1[0] == s2[0]);
        assert(escape(s1.drop_first()) =~= t.subrange(e1.len() as int, t.len() as int));
        assert(escape(s2.drop_first()) =~= t.subrange(e2.len() as int, t.len() as int));
        lemma_escape_injective(s1.drop_first(), s2.drop_first());
        assert(s1 =~= seq![s1[0]] + s1.drop_first());
        assert(s2 =~= seq![s2[0]] + s2.drop_first());
    }
}

/// Distinct `(name, version)` keys never share a cache file name.
pub proof fn lemma_cache_key_injective(n1: Seq<char>, v1: Seq<char>, n2: Seq<char>, v2: Seq<char>)
    requires
        cache_key_of(n1, v1) == cache_key_of(n2, v2),
    ensures
        n1 == n2,
        v1 == v2,
{
    lemma_escape_no_separator(n1);
    lemma_escape_no_separator(n2);
    let k = cache_key_of(n1, v1);
    let a1 = escape(n1);
    let a2 = escape(n2);
    assert(k[a1.len() as int] == '@');
    assert(cache_key_of(n2, v2)[a2.len() as int] == '@');
    if a1.len() < a2.len() {
        assert(k[a1.len() as int] == a2[a1.len() as int]);
    }
    if a2.len() < a1.len() {
        assert(k[a2.len() as int] == a1[a2.len() as int]);
    }
    assert(a1 =~= k.subrange(0, a1.len() as int));
    assert(a2 =~= k.subrange(0, a2.len() as int));
    lemma_escape_injective(n1, n2);
    assert(escape(v1) =~= k.subrange(a1.len() as int + 1, k.len() as int - 4));
    assert(escape(v2) =~= k.subrange(a2.len() as int + 1, k.len() as int - 4));
    lemma_escape_injective(v1, v2);
}

/// Appends the escape of `s` to `out`.
fn push_escaped(out: &mut String, s: &str)
    ensures
        final(out)@ == old(out)@ + escape(s@),
{
    let n = s.unicode_len();
    let mut i: usize = 0;
    while i < n
        invariant
            n == s@.len(),
            i <= n,
            out@ == old(out)@ + escape(s@.take(i as int)),
        decreases n - i,
    {
        let c = s.get_char(i);
        proof {
            assert(s@.take(i as int + 1).drop_last() =~= s@.take(i as int));
            assert(s@.take(i as int + 1).last() == c);
            reveal_strlit("%25");
            reveal_strlit("%2F");
            reveal_strlit("%40");
        }
        if c == '%' {
            out.append("%25");
        } else if c == '/' {
            out.append("%2F");
        } else if c == '@' {
            out.append("%40");
        } else {
            let one = s.substring_char(i, i + 1);
            assert(one@ =~= seq![c]);
            out.append(one);
        }
        proof {
            assert(out@ =~= old(out)@ + escape(s@.take(i as int + 1)));
        }
        i = i + 1;
    }
    assert(s@.take(n as int) =~= s@);
}

/// The file name under which the archive of `name` at `version` is cached.
pub fn cache_key(name: &str, version: &str) -> (r: String)
    ensures
        r@ == cache_key_of(name@, version@),
{
    let mut out = String::new();
    push_escaped(&mut out, name);
    out.append("@");
    push_escaped(&mut out, version);
    out.append(".tgz");
    proof {
        reveal_strlit("@");
        reveal_strlit(".tgz");
        assert(out@ =~= cache_key_of(name@, version@));
    }
    out
}

/// A file found in the cache: where it is, its size in bytes, and the
/// seconds since it was last modified.
pub struct CacheFile {
    pub path: String,
    pub size: u64,
    pub age_secs: u64,
}

/// The files an age-based sweep removes, by index, and what it frees.
pub struct EvictionPlan {
    pub victims: Vec<usize>,
    pub removed: usize,
    /// Total size of the victims, saturating at `u64::MAX`.
    pub bytes_freed: u64,
}

/// A file older than `max_age` seconds.
pub open spec fn is_stale(f: CacheFile, max_age: u64) -> bool {
    f.age_secs > max_age
}

/// Indices, in increasing order, of the stale files.
pub open spec fn stale_indices(files: Seq<CacheFile>, max_age: u64) -> Seq<usize>
    decreases files.len(),
{
    if files.len() == 0 {
        Seq::empty()
    } else {
        let p = stale_indices(files.drop_last(), max_age);
        if is_stale(files.last(), max_age) {
            p.push((files.len() - 1) as usize)
        } else {
            p
        }
    }
}

/// Total size of the stale files.
pub open spec fn stale_bytes(files: Seq<CacheFile>, max_age: u64) -> nat
    decreases files.len(),
{
    if files.len() == 0 {
        0
    } else {
        stale_bytes(files.drop_last(), max_age) + if is_stale(files.last(), max_age) {
            files.last().size as nat
        } else {
            0
        }
    }
}

/// `x`, or `u64::MAX` when it is larger.
pub open spec fn saturate(x: nat) -> u64 {
    if x > u64::MAX { u64::MAX } else { x as u64 }
}

/// The age threshold in seconds for a number of days, saturating at `u64::MAX`.
pub fn threshold_secs(days: u64) -> (r: u64)
    ensures
        r == saturate(days as nat * 86400),
{
    if days > u64::MAX / 86400 {
        assert(days as nat * 86400 > u64::MAX) by (nonlinear_arith)
            requires days > u64::MAX / 86400;
        u64::MAX
    } else {
        assert(days as nat * 86400 <= u64::MAX) by (nonlinear_arith)
            requires days <= u64::MAX / 86400;
        days * 86400
    }
}

/// Plans an age-based sweep: every file strictly older than `max_age`
/// seconds goes, and no other.
pub fn plan_eviction(files: &Vec<CacheFile>, max_age: u64) -> (r: EvictionPlan)
    ensures
        r.victims@ == stale_indices(files@, max_age),
        r.removed == r.victims@.len(),
        r.bytes_freed == saturate(stale_bytes(files@, max_age)),
{
    let mut victims: Vec<usize> = Vec::new();
    let mut bytes: u64 = 0;
    let mut i: usize = 0;
    while i < files.len()
        invariant
            i <= files@.len(),
            victims@ == stale_indices(files@.take(i as int), max_age),
            bytes == saturate(stale_bytes(files@.take(i as int), max_age)),
        decreases files@.len() - i,
    {
        proof {
            assert(files@.take(i as int + 1).drop_last() =~= files@.take(i as int));
            assert(files@.take(i as int + 1).last() == files@[i as int]);
        }
        if files[i].age_secs > max_age {
            victims.push(i);
            bytes = bytes.saturating_add(files[i].size);
        }
        i = i + 1;
    }
    assert(files@.take(files@.len() as int) =~= files@);
    let removed = victims.len();
    EvictionPlan { victims, removed, bytes_freed: bytes }
}

/// The files that a sweep keeps.
pub open spec fn survivors(files: Seq<CacheFile>, max_age: u64) -> Seq<CacheFile> {
    files.filter(|f: CacheFile| !is_stale(f, max_age))
}

/// A sweep removes exactly the stale files: an index is a victim if and only
/// if the file at it is strictly older than the threshold.
pub proof fn lemma_evicts_exactly_stale(files: Seq<CacheFile>, max_age: u64)
    requires
        files.len() <= usize::MAX,
    ensures
        forall|i: int| 0 <= i < files.len() ==> (stale_indices(files, max_age).contains(i as usize)
            <==> is_stale(#[trigger] files[i], max_age)),
        forall|k: int| 0 <= k < stale_indices(files, max_age).len() ==> (#[trigger] stale_indices(files, max_age)[k]) < files.len(),
    decreases files.len(),
{
    if files.len() > 0 {
        let init = files.drop_last();
        lemma_evicts_exactly_stale(init, max_age);
        let p = stale_indices(init, max_age);
        let q = stale_indices(files, max_age);
        assert forall|i: int| 0 <= i < files.len() implies (q.contains(i as usize) <==> is_stale(
            #[trigger] files[i],
            max_age,
        )) by {
            if i < files.len() - 1 {
                assert(files[i] == init[i]);
                if is_stale(files.last(), max_age) {
                    assert(q == p.push((files.len() - 1) as usize));
                    if p.contains(i as usize) {
                        let k = choose|k: int| 0 <= k < p.len() && p[k] == i as usize;
                        assert(q[k] == i as usize);
                    }
                    if q.contains(i as usize) {
                        let k = choose|k: int| 0 <= k < q.len() && q[k] == i as usize;
                        if k < p.len() {
                            assert(p[k] == i as usize);
                        }
                    }
                }
            } else {
                if is_stale(files.last(), max_age) {
                    assert(q[q.len() - 1] == i as usize);
                } else {
                    if q.contains(i as usize) {
                        let k = choose|k: int| 0 <= k < q.len() && q[k] == i as usize;
                        assert(p[k] < init.len());
                    }
                }
            }
        }
    }
}

/// After a sweep, sweeping again with the same threshold removes nothing.
pub proof fn lemma_eviction_idempotent(files: Seq<CacheFile>, max_age: u64)
    ensures
        stale_indices(survivors(files, max_age), max_age).len() == 0,
        stale_bytes(survivors(files, max_age), max_age) == 0,
{
    let pred = |f: CacheFile| !is_stale(f, max_age);
    let s = survivors(files, max_age);
    assert forall|i: int| 0 <= i < s.len() implies !is_stale(#[trigger] s[i], max_age) by {
        files.lemma_filter_pred(pred, i);
    }
    lemma_nothing_stale(s, max_age);
}

proof fn lemma_nothing_stale(files: Seq<CacheFile>, max_age: u64)
    requires
        forall|i: int| 0 <= i < files.len() ==> !is_stale(#[trigger] files[i], max_age),
    ensures
        stale_indices(files, max_age).len() == 0,
        stale_bytes(files, max_age) == 0,
    decreases files.len(),
{
    if files.len() > 0 {
        let init = files.drop_last();
        assert forall|i: int| 0 <= i < init.len() implies !is_stale(#[trigger] init[i], max_age) by {
            assert(init[i] == files[i]);
        }
        lemma_nothing_stale(init, max_age);
        assert(!is_stale(files[files.len() - 1], max_age));
    }
}

} // verus!
