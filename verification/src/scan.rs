//! Matching timeline files to a piece of content by name: given the files
//! that sit beside the content, find the funscripts that belong to it, per
//! axis, in a main cluster and named override clusters.

use vstd::prelude::*;

use crate::axis::{kind_rank, spec_kind_rank, AxisKind};
use crate::vecmap::{
    lemma_insert_entries, lemma_lookup_insert, spec_insert, spec_lookup, VecMap,
};

verus! {

/// Whether `p` starts `s`.
pub open spec fn spec_is_prefix(p: Seq<char>, s: Seq<char>) -> bool {
    p.len() <= s.len() && s.take(p.len() as int) == p
}

/// Whether `p` ends `s`.
pub open spec fn spec_is_suffix(p: Seq<char>, s: Seq<char>) -> bool {
    p.len() <= s.len() && s.skip(s.len() - p.len()) == p
}

/// Strips `p` from the front of `s`, if it starts it.
fn strip_prefix_chars<'a>(s: &'a str, p: &str) -> (r: Option<&'a str>)
    ensures
        match r {
            Some(rest) => spec_is_prefix(p@, s@) && rest@ == s@.skip(p@.len() as int),
            None => !spec_is_prefix(p@, s@),
        },
{
    let plen = p.unicode_len();
    let slen = s.unicode_len();
    if plen > slen {
        return None;
    }
    let mut i: usize = 0;
    while i < plen
        invariant
            0 <= i <= plen <= slen,
            plen == p@.len(),
            slen == s@.len(),
            forall|j: int| 0 <= j < i ==> #[trigger] s@[j] == p@[j],
        decreases plen - i,
    {
        if s.get_char(i) != p.get_char(i) {
            proof {
                assert(s@.take(plen as int)[i as int] != p@[i as int]);
            }
            return None;
        }
        i += 1;
    }
    proof {
        assert(s@.take(plen as int) =~= p@);
    }
    Some(s.substring_char(plen, slen))
}

/// Strips `p` from the end of `s`, if it ends it.
fn strip_suffix_chars<'a>(s: &'a str, p: &str) -> (r: Option<&'a str>)
    ensures
        match r {
            Some(rest) => spec_is_suffix(p@, s@) && rest@ == s@.take(s@.len() - p@.len()),
            None => !spec_is_suffix(p@, s@),
        },
{
    let plen = p.unicode_len();
    let slen = s.unicode_len();
    if plen > slen {
        return None;
    }
    let base = slen - plen;
    let mut i: usize = 0;
    while i < plen
        invariant
            0 <= i <= plen <= slen,
            base == slen - plen,
            plen == p@.len(),
            slen == s@.len(),
            forall|j: int| 0 <= j < i ==> #[trigger] s@[base + j] == p@[j],
        decreases plen - i,
    {
        if s.get_char(base + i) != p.get_char(i) {
            proof {
                assert(s@.skip(base as int)[i as int] != p@[i as int]);
            }
            return None;
        }
        i += 1;
    }
    proof {
        assert forall|j: int| 0 <= j < plen implies s@.skip(base as int)[j] == p@[j] by {
            assert(s@[base + j] == p@[j]);
        }
        assert(s@.skip(base as int) =~= p@);
    }
    Some(s.substring_char(0, base))
}

/// Everything before the last dot of `s` (meaningful when `s` has a dot).
pub open spec fn spec_before_last_dot(s: Seq<char>) -> Seq<char>
    decreases s.len(),
{
    if s.len() == 0 {
        s
    } else if s.last() == '.' {
        s.drop_last()
    } else {
        spec_before_last_dot(s.drop_last())
    }
}

/// Whether `s` holds a dot.
pub open spec fn spec_has_dot(s: Seq<char>) -> bool {
    exists|i: int| 0 <= i < s.len() && s[i] == '.'
}

/// The filename without its final extension: everything before the last
/// dot, or the whole name when it has none.
pub open spec fn spec_stem(s: Seq<char>) -> Seq<char> {
    if spec_has_dot(s) {
        spec_before_last_dot(s)
    } else {
        s
    }
}

proof fn lemma_before_last_dot(s: Seq<char>, j: int)
    requires
        0 <= j < s.len(),
        s[j] == '.',
        forall|l: int| j < l < s.len() ==> #[trigger] s[l] != '.',
    ensures
        spec_before_last_dot(s) =~= s.take(j),
    decreases s.len(),
{
    if j == s.len() - 1 {
        assert(s.drop_last() =~= s.take(j));
    } else {
        assert(s.last() != '.');
        lemma_before_last_dot(s.drop_last(), j);
        assert(s.drop_last().take(j) =~= s.take(j));
    }
}

/// The filename without its final extension.
fn stem<'a>(s: &'a str) -> (r: &'a str)
    ensures
        r@ == spec_stem(s@),
{
    let len = s.unicode_len();
    let mut i: usize = len;
    while i > 0
        invariant
            0 <= i <= len,
            len == s@.len(),
            forall|l: int| i <= l < len ==> #[trigger] s@[l] != '.',
        decreases i,
    {
        i -= 1;
        if s.get_char(i) == '.' {
            proof {
                lemma_before_last_dot(s@, i as int);
            }
            return s.substring_char(0, i);
        }
    }
    proof {
        assert(!spec_has_dot(s@));
    }
    s
}

/// The axis-kind suffixes, tried in this fixed order; a filename that ends
/// in one of them belongs to that kind, the bare name means the stroke
/// axis, and a later-listed suffix wins over an earlier one.
pub open spec fn spec_strip_axis(s: Seq<char>) -> (Seq<char>, AxisKind) {
    let r0 = (s, AxisKind::Stroke);
    let r1 = if spec_is_suffix(".surge"@, r0.0) {
        (r0.0.take(r0.0.len() - ".surge"@.len()), AxisKind::Surge)
    } else {
        r0
    };
    let r2 = if spec_is_suffix(".sway"@, r1.0) {
        (r1.0.take(r1.0.len() - ".sway"@.len()), AxisKind::Sway)
    } else {
        r1
    };
    let r3 = if spec_is_suffix(".twist"@, r2.0) {
        (r2.0.take(r2.0.len() - ".twist"@.len()), AxisKind::Twist)
    } else {
        r2
    };
    let r4 = if spec_is_suffix(".roll"@, r3.0) {
        (r3.0.take(r3.0.len() - ".roll"@.len()), AxisKind::Roll)
    } else {
        r3
    };
    let r5 = if spec_is_suffix(".pitch"@, r4.0) {
        (r4.0.take(r4.0.len() - ".pitch"@.len()), AxisKind::Pitch)
    } else {
        r4
    };
    r5
}

/// Strips a trailing axis suffix, determining which axis the file names.
fn strip_axis<'a>(s: &'a str) -> (r: (&'a str, AxisKind))
    ensures
        r.0@ == spec_strip_axis(s@).0,
        r.1 == spec_strip_axis(s@).1,
{
    let mut cur: &'a str = s;
    let mut kind = AxisKind::Stroke;
    match strip_suffix_chars(cur, ".surge") {
        Some(rest) => {
            cur = rest;
            kind = AxisKind::Surge;
        },
        None => {},
    }
    match strip_suffix_chars(cur, ".sway") {
        Some(rest) => {
            cur = rest;
            kind = AxisKind::Sway;
        },
        None => {},
    }
    match strip_suffix_chars(cur, ".twist") {
        Some(rest) => {
            cur = rest;
            kind = AxisKind::Twist;
        },
        None => {},
    }
    match strip_suffix_chars(cur, ".roll") {
        Some(rest) => {
            cur = rest;
            kind = AxisKind::Roll;
        },
        None => {},
    }
    match strip_suffix_chars(cur, ".pitch") {
        Some(rest) => {
            cur = rest;
            kind = AxisKind::Pitch;
        },
        None => {},
    }
    (cur, kind)
}

/// How one file in the listing relates to the content: `None` when it does
/// not belong to it at all, else the override-cluster key (empty for the
/// main cluster) and the axis kind it holds a timeline for.
pub open spec fn spec_classify(file: Seq<char>, prefix: Seq<char>) -> Option<(Seq<char>, AxisKind)> {
    if !spec_is_prefix(prefix, file) {
        None
    } else {
        let un0 = file.skip(prefix.len() as int);
        if !spec_is_suffix(".funscript"@, un0) {
            None
        } else {
            let un1 = un0.take(un0.len() - ".funscript"@.len());
            Some(spec_strip_axis(un1))
        }
    }
}

/// The entries of a cluster map, each keyed by its own kind's rank.
pub open spec fn cluster_entries_wf(scripts: Seq<(u32, (AxisKind, String))>) -> bool {
    forall|i: int|
        0 <= i < scripts.len() ==> (#[trigger] scripts[i]).0 == spec_kind_rank(scripts[i].1.0)
}

/// A cluster of funscript files, one per axis kind (keyed by
/// [`spec_kind_rank`]).
#[derive(Clone, Debug)]
pub struct FunscriptCluster {
    pub scripts: VecMap<(AxisKind, String)>,
}

impl FunscriptCluster {
    /// Sorted, and every entry keyed by its own kind's rank.
    pub open spec fn wf(self) -> bool {
        self.scripts.wf() && cluster_entries_wf(self.scripts.view())
    }

    /// An empty cluster.
    pub fn new() -> (r: FunscriptCluster)
        ensures
            r.wf(),
            r.scripts.view() =~= Seq::<(u32, (AxisKind, String))>::empty(),
    {
        FunscriptCluster { scripts: VecMap::new() }
    }
}

/// All discovered funscripts related to one piece of content: the main
/// cluster, and override clusters by name, letting alternative timelines be
/// switched in at will.
#[derive(Clone, Debug)]
pub struct FunscriptScan {
    pub main: FunscriptCluster,
    pub overrides: Vec<(String, FunscriptCluster)>,
}

/// Position `i` names the last file of the listing that classifies as
/// (`key`, `kind`) for this content.
pub open spec fn spec_last_match(
    files: Seq<Seq<char>>,
    prefix: Seq<char>,
    key: Seq<char>,
    kind: AxisKind,
    i: int,
) -> bool {
    &&& 0 <= i < files.len()
    &&& spec_classify(files[i], prefix) == Some((key, kind))
    &&& forall|j: int|
        i < j < files.len() ==> spec_classify(#[trigger] files[j], prefix) != Some((key, kind))
}

/// The cluster with this key holds, for each kind, exactly the last file
/// of the listing that classifies as (`key`, that kind) — and nothing for
/// the kinds no such file names.
pub open spec fn cluster_matches(
    scripts: Seq<(u32, (AxisKind, String))>,
    files: Seq<Seq<char>>,
    prefix: Seq<char>,
    key: Seq<char>,
) -> bool {
    forall|k: AxisKind|
        match spec_lookup(scripts, #[trigger] spec_kind_rank(k)) {
            Some(e) => e.0 == k && (exists|i: int|
                spec_last_match(files, prefix, key, k, i) && e.1@ == files[i]),
            None => forall|i: int|
                0 <= i < files.len() ==> spec_classify(#[trigger] files[i], prefix) != Some(
                    (key, k),
                ),
        }
}

/// A cluster that matched the listing so far still matches after a file
/// that does not classify to its key.
proof fn lemma_cluster_extend_other(
    scripts: Seq<(u32, (AxisKind, String))>,
    files: Seq<Seq<char>>,
    prefix: Seq<char>,
    i: int,
    key: Seq<char>,
)
    requires
        0 <= i < files.len(),
        cluster_matches(scripts, files.take(i), prefix, key),
        forall|k: AxisKind| spec_classify(files[i], prefix) != Some((key, k)),
    ensures
        cluster_matches(scripts, files.take(i + 1), prefix, key),
{
    let pre = files.take(i);
    let post = files.take(i + 1);
    assert forall|k: AxisKind| true implies match spec_lookup(
        scripts,
        #[trigger] spec_kind_rank(k),
    ) {
        Some(e) => e.0 == k && (exists|l: int|
            spec_last_match(post, prefix, key, k, l) && e.1@ == post[l]),
        None => forall|l: int|
            0 <= l < post.len() ==> spec_classify(#[trigger] post[l], prefix) != Some((key, k)),
    } by {
        match spec_lookup(scripts, spec_kind_rank(k)) {
            Some(e) => {
                let l = choose|l: int|
                    spec_last_match(pre, prefix, key, k, l) && e.1@ == pre[l];
                assert(post[l] == pre[l]);
                assert(post[i as int] == files[i]);
                assert(spec_last_match(post, prefix, key, k, l)) by {
                    assert forall|j: int| l < j < post.len() implies spec_classify(
                        #[trigger] post[j],
                        prefix,
                    ) != Some((key, k)) by {
                        if j < i {
                            assert(post[j] == pre[j]);
                        }
                    }
                }
            },
            None => {
                assert forall|l: int| 0 <= l < post.len() implies spec_classify(
                    #[trigger] post[l],
                    prefix,
                ) != Some((key, k)) by {
                    if l < i {
                        assert(post[l] == pre[l]);
                    }
                }
            },
        }
    }
}

/// Inserting the file at position `i` (which classifies to this cluster's
/// key with kind `kind`) into a cluster that matched the listing so far
/// makes it match the listing including that file.
proof fn lemma_cluster_extend_insert(
    before: Seq<(u32, (AxisKind, String))>,
    file_string: String,
    files: Seq<Seq<char>>,
    prefix: Seq<char>,
    i: int,
    key: Seq<char>,
    kind: AxisKind,
)
    requires
        0 <= i < files.len(),
        crate::vecmap::entries_sorted(before),
        cluster_matches(before, files.take(i), prefix, key),
        spec_classify(files[i], prefix) == Some((key, kind)),
        file_string@ == files[i],
    ensures
        cluster_matches(
            spec_insert(before, spec_kind_rank(kind), (kind, file_string)),
            files.take(i + 1),
            prefix,
            key,
        ),
{
    let pre = files.take(i);
    let post = files.take(i + 1);
    let after = spec_insert(before, spec_kind_rank(kind), (kind, file_string));
    assert forall|k: AxisKind| true implies match spec_lookup(after, #[trigger] spec_kind_rank(k)) {
        Some(e) => e.0 == k && (exists|l: int|
            spec_last_match(post, prefix, key, k, l) && e.1@ == post[l]),
        None => forall|l: int|
            0 <= l < post.len() ==> spec_classify(#[trigger] post[l], prefix) != Some((key, k)),
    } by {
        lemma_lookup_insert(before, spec_kind_rank(kind), (kind, file_string), spec_kind_rank(k));
        crate::axis::lemma_kind_rank_injective(k, kind);
        if k == kind {
            assert(post[i as int] == files[i]);
            assert(spec_last_match(post, prefix, key, k, i));
            assert(spec_lookup(after, spec_kind_rank(k)) == Some((kind, file_string)));
        } else {
            match spec_lookup(before, spec_kind_rank(k)) {
                Some(e) => {
                    let l = choose|l: int|
                        spec_last_match(pre, prefix, key, k, l) && e.1@ == pre[l];
                    assert(post[l] == pre[l]);
                    assert(spec_last_match(post, prefix, key, k, l)) by {
                        assert forall|j: int| l < j < post.len() implies spec_classify(
                            #[trigger] post[j],
                            prefix,
                        ) != Some((key, k)) by {
                            if j < i {
                                assert(post[j] == pre[j]);
                            } else {
                                assert(post[j] == files[i]);
                            }
                        }
                    }
                },
                None => {
                    assert forall|l: int| 0 <= l < post.len() implies spec_classify(
                        #[trigger] post[l],
                        prefix,
                    ) != Some((key, k)) by {
                        if l < i {
                            assert(post[l] == pre[l]);
                        } else {
                            assert(post[l] == files[i]);
                        }
                    }
                },
            }
        }
    }
}

/// Keying by rank stays well-formed across an insertion of a rank-keyed
/// entry.
proof fn lemma_cluster_insert_wf(
    before: Seq<(u32, (AxisKind, String))>,
    kind: AxisKind,
    file_string: String,
)
    requires
        cluster_entries_wf(before),
    ensures
        cluster_entries_wf(spec_insert(before, spec_kind_rank(kind), (kind, file_string))),
{
    lemma_insert_entries(before, spec_kind_rank(kind), (kind, file_string));
    let after = spec_insert(before, spec_kind_rank(kind), (kind, file_string));
    assert forall|l: int| 0 <= l < after.len() implies (#[trigger] after[l]).0 == spec_kind_rank(
        after[l].1.0,
    ) by {
        if after[l] != (spec_kind_rank(kind), (kind, file_string)) {
            let j = choose|j: int| 0 <= j < before.len() && #[trigger] before[j] == after[l];
        }
    }
}

/// Every file of the listing prefix that classifies to a named (non-main)
/// cluster has an override cluster of that name.
pub open spec fn overrides_complete(
    overrides: Seq<(String, FunscriptCluster)>,
    files: Seq<Seq<char>>,
    prefix: Seq<char>,
) -> bool {
    forall|l: int|
        0 <= l < files.len() ==> match spec_classify(#[trigger] files[l], prefix) {
            Some(t) => t.0.len() == 0 || (exists|oi: int|
                0 <= oi < overrides.len() && (#[trigger] overrides[oi]).0@ == t.0),
            None => true,
        }
}

/// Searches a directory listing for the funscripts that belong to the
/// given content file: a file belongs when its name is the content's stem,
/// then an optional override name, then an optional axis suffix, then
/// `.funscript`. Each cluster is exact: per axis kind it holds the last
/// file of its name in the listing, and nothing else; override clusters
/// carry unique, non-empty names, one for every name that occurs.
pub fn scan_for_funscripts(dir_listing_of_files: &Vec<String>, scan_filename: &str) -> (r:
    FunscriptScan)
    ensures
        ({
            let files = dir_listing_of_files@.map_values(|f: String| f@);
            let prefix = spec_stem(scan_filename@);
            &&& r.main.wf()
            &&& cluster_matches(r.main.scripts.view(), files, prefix, Seq::<char>::empty())
            &&& forall|oi: int|
                0 <= oi < r.overrides@.len() ==> (#[trigger] r.overrides@[oi]).0@.len() > 0
                    && r.overrides@[oi].1.wf() && cluster_matches(
                    r.overrides@[oi].1.scripts.view(),
                    files,
                    prefix,
                    r.overrides@[oi].0@,
                )
            &&& forall|oi: int, oj: int|
                0 <= oi < oj < r.overrides@.len() ==> (#[trigger] r.overrides@[oi]).0@ != (
                #[trigger] r.overrides@[oj]).0@
            &&& overrides_complete(r.overrides@, files, prefix)
        }),
{
    let ghost files = dir_listing_of_files@.map_values(|f: String| f@);
    let prefix = stem(scan_filename);
    let mut main = FunscriptCluster::new();
    let mut overrides: Vec<(String, FunscriptCluster)> = Vec::new();
    let n = dir_listing_of_files.len();
    let mut i: usize = 0;
    proof {
        assert(files.take(0) =~= Seq::<Seq<char>>::empty());
    }
    while i < n
        invariant
            0 <= i <= n,
            n == files.len(),
            files == dir_listing_of_files@.map_values(|f: String| f@),
            prefix@ == spec_stem(scan_filename@),
            main.wf(),
            cluster_matches(main.scripts.view(), files.take(i as int), prefix@, Seq::<char>::empty()),
            forall|oi: int|
                0 <= oi < overrides@.len() ==> (#[trigger] overrides@[oi]).0@.len() > 0
                    && overrides@[oi].1.wf() && cluster_matches(
                    overrides@[oi].1.scripts.view(),
                    files.take(i as int),
                    prefix@,
                    overrides@[oi].0@,
                ),
            forall|oi: int, oj: int|
                0 <= oi < oj < overrides@.len() ==> (#[trigger] overrides@[oi]).0@ != (
                #[trigger] overrides@[oj]).0@,
            overrides_complete(overrides@, files.take(i as int), prefix@),
        decreases n - i,
    {
        let ghost files_pre = files.take(i as int);
        let ghost files_post = files.take(i as int + 1);
        proof {
            assert(files_post.drop_last() =~= files_pre);
            assert(files[i as int] == dir_listing_of_files@[i as int]@);
            assert forall|l: int| 0 <= l < files_pre.len() implies #[trigger] files_post[l]
                == files_pre[l] by {}
        }
        let file: &String = &dir_listing_of_files[i];
        let mut classified: Option<(&str, AxisKind)> = None;
        match strip_prefix_chars(file.as_str(), prefix) {
            Some(un0) => {
                match strip_suffix_chars(un0, ".funscript") {
                    Some(un1) => {
                        let (un2, kind) = strip_axis(un1);
                        classified = Some((un2, kind));
                    },
                    None => {},
                }
            },
            None => {},
        }
        match classified {
            None => {
                proof {
                    assert(spec_classify(files[i as int], prefix@) is None);
                    lemma_cluster_extend_other(
                        main.scripts.view(),
                        files,
                        prefix@,
                        i as int,
                        Seq::<char>::empty(),
                    );
                    assert forall|oi: int| 0 <= oi < overrides@.len() implies (
                    #[trigger] overrides@[oi]).0@.len() > 0 && overrides@[oi].1.wf()
                        && cluster_matches(
                        overrides@[oi].1.scripts.view(),
                        files.take(i as int + 1),
                        prefix@,
                        overrides@[oi].0@,
                    ) by {
                        lemma_cluster_extend_other(
                            overrides@[oi].1.scripts.view(),
                            files,
                            prefix@,
                            i as int,
                            overrides@[oi].0@,
                        );
                    }
                }
            },
            Some((key_str, kind)) => {
                proof {
                    assert(spec_classify(files[i as int], prefix@) == Some((key_str@, kind)));
                }
                if key_str.is_empty() {
                    let ghost main_before = main.scripts.view();
                    let file_clone = file.clone();
                    proof {
                        assert(key_str@ =~= Seq::<char>::empty());
                        lemma_cluster_extend_insert(
                            main_before,
                            file_clone,
                            files,
                            prefix@,
                            i as int,
                            Seq::<char>::empty(),
                            kind,
                        );
                        lemma_cluster_insert_wf(main_before, kind, file_clone);
                    }
                    main.scripts.insert(kind_rank(kind), (kind, file_clone));
                    proof {
                        assert forall|oi: int| 0 <= oi < overrides@.len() implies (
                        #[trigger] overrides@[oi]).0@.len() > 0 && overrides@[oi].1.wf()
                            && cluster_matches(
                            overrides@[oi].1.scripts.view(),
                            files.take(i as int + 1),
                            prefix@,
                            overrides@[oi].0@,
                        ) by {
                            assert(overrides@[oi].0@.len() > 0);
                            lemma_cluster_extend_other(
                                overrides@[oi].1.scripts.view(),
                                files,
                                prefix@,
                                i as int,
                                overrides@[oi].0@,
                            );
                        }
                    }
                } else {
                    proof {
                        assert(key_str@.len() > 0);
                        lemma_cluster_extend_other(
                            main.scripts.view(),
                            files,
                            prefix@,
                            i as int,
                            Seq::<char>::empty(),
                        );
                    }
                    let key_string: String = key_str.to_owned();
                    let m = overrides.len();
                    let mut found: Option<usize> = None;
                    let mut oi: usize = 0;
                    while oi < m
                        invariant
                            0 <= oi <= m,
                            m == overrides@.len(),
                            key_string@ == key_str@,
                            match found {
                                Some(x) => x < oi <= m && overrides@[x as int].0@ == key_str@,
                                None => forall|l: int|
                                    0 <= l < oi ==> (#[trigger] overrides@[l]).0@ != key_str@,
                            },
                        decreases m - oi,
                    {
                        if found.is_none() {
                            let candidate: &String = &overrides[oi].0;
                            if candidate.eq(&key_string) {
                                found = Some(oi);
                            }
                        }
                        oi += 1;
                    }
                    let ghost ovr_before = overrides@;
                    match found {
                        Some(x) => {
                            let mut entry = overrides.remove(x);
                            let ghost cluster_before = entry.1.scripts.view();
                            let file_clone = file.clone();
                            proof {
                                lemma_cluster_extend_insert(
                                    cluster_before,
                                    file_clone,
                                    files,
                                    prefix@,
                                    i as int,
                                    key_str@,
                                    kind,
                                );
                                lemma_cluster_insert_wf(cluster_before, kind, file_clone);
                            }
                            entry.1.scripts.insert(kind_rank(kind), (kind, file_clone));
                            overrides.insert(x, entry);
                            proof {
                                assert(overrides@.len() == ovr_before.len());
                                assert forall|oi2: int|
                                    0 <= oi2 < overrides@.len() && oi2 != x implies
                                    #[trigger] overrides@[oi2] == ovr_before[oi2] by {}
                                assert(overrides@[x as int].0@ == key_str@);
                                assert forall|oi2: int| 0 <= oi2 < overrides@.len() implies (
                                #[trigger] overrides@[oi2]).0@.len() > 0 && overrides@[oi2].1.wf()
                                    && cluster_matches(
                                    overrides@[oi2].1.scripts.view(),
                                    files.take(i as int + 1),
                                    prefix@,
                                    overrides@[oi2].0@,
                                ) by {
                                    if oi2 != x {
                                        // Names are unique, so no other cluster
                                        // owns this file's key.
                                        assert(ovr_before[oi2].0@ != key_str@);
                                        lemma_cluster_extend_other(
                                            ovr_before[oi2].1.scripts.view(),
                                            files,
                                            prefix@,
                                            i as int,
                                            ovr_before[oi2].0@,
                                        );
                                    }
                                }
                                assert(overrides_complete(
                                    overrides@,
                                    files.take(i as int + 1),
                                    prefix@,
                                )) by {
                                    assert forall|l: int|
                                        0 <= l < files_post.len() implies match spec_classify(
                                        #[trigger] files_post[l],
                                        prefix@,
                                    ) {
                                        Some(t) => t.0.len() == 0 || (exists|oi2: int|
                                            0 <= oi2 < overrides@.len() && (
                                            #[trigger] overrides@[oi2]).0@ == t.0),
                                        None => true,
                                    } by {
                                        if l < i {
                                            assert(files_post[l] == files_pre[l]);
                                            match spec_classify(files_pre[l], prefix@) {
                                                Some(t) => {
                                                    if t.0.len() != 0 {
                                                        let w = choose|w: int|
                                                            0 <= w < ovr_before.len() && (
                                                            #[trigger] ovr_before[w]).0@ == t.0;
                                                        assert(overrides@[w].0@ == t.0);
                                                    }
                                                },
                                                None => {},
                                            }
                                        } else {
                                            assert(files_post[l] == files[i as int]);
                                            assert(overrides@[x as int].0@ == key_str@);
                                        }
                                    }
                                }
                            }
                        },
                        None => {
                            // The completeness invariant says a key without a
                            // cluster never occurred before, so the fresh
                            // cluster starts from a listing without it.
                            proof {
                                assert forall|l: int|
                                    0 <= l < files_pre.len() implies match spec_classify(
                                    #[trigger] files_pre[l],
                                    prefix@,
                                ) {
                                    Some(t) => t.0 != key_str@,
                                    None => true,
                                } by {
                                    match spec_classify(files_pre[l], prefix@) {
                                        Some(t) => {
                                            if t.0 == key_str@ {
                                                assert(t.0.len() > 0);
                                                let w = choose|w: int|
                                                    0 <= w < overrides@.len() && (
                                                    #[trigger] overrides@[w]).0@ == t.0;
                                                assert(overrides@[w].0@ != key_str@);
                                            }
                                        },
                                        None => {},
                                    }
                                }
                            }
                            let mut cluster = FunscriptCluster::new();
                            let file_clone = file.clone();
                            proof {
                                assert(cluster_matches(
                                    cluster.scripts.view(),
                                    files_pre,
                                    prefix@,
                                    key_str@,
                                ));
                                lemma_cluster_extend_insert(
                                    cluster.scripts.view(),
                                    file_clone,
                                    files,
                                    prefix@,
                                    i as int,
                                    key_str@,
                                    kind,
                                );
                                lemma_cluster_insert_wf(cluster.scripts.view(), kind, file_clone);
                            }
                            cluster.scripts.insert(kind_rank(kind), (kind, file_clone));
                            overrides.push((key_string, cluster));
                            proof {
                                assert(overrides@[overrides@.len() - 1].0@ == key_str@);
                                assert forall|oi2: int| 0 <= oi2 < overrides@.len() implies (
                                #[trigger] overrides@[oi2]).0@.len() > 0 && overrides@[oi2].1.wf()
                                    && cluster_matches(
                                    overrides@[oi2].1.scripts.view(),
                                    files.take(i as int + 1),
                                    prefix@,
                                    overrides@[oi2].0@,
                                ) by {
                                    if oi2 < overrides@.len() - 1 {
                                        assert(overrides@[oi2] == ovr_before[oi2]);
                                        // The new file's key is nobody else's.
                                        assert(ovr_before[oi2].0@ != key_str@);
                                        lemma_cluster_extend_other(
                                            ovr_before[oi2].1.scripts.view(),
                                            files,
                                            prefix@,
                                            i as int,
                                            ovr_before[oi2].0@,
                                        );
                                    }
                                }
                                assert(overrides_complete(
                                    overrides@,
                                    files.take(i as int + 1),
                                    prefix@,
                                )) by {
                                    assert forall|l: int|
                                        0 <= l < files_post.len() implies match spec_classify(
                                        #[trigger] files_post[l],
                                        prefix@,
                                    ) {
                                        Some(t) => t.0.len() == 0 || (exists|oi2: int|
                                            0 <= oi2 < overrides@.len() && (
                                            #[trigger] overrides@[oi2]).0@ == t.0),
                                        None => true,
                                    } by {
                                        if l < i {
                                            assert(files_post[l] == files_pre[l]);
                                            match spec_classify(files_pre[l], prefix@) {
                                                Some(t) => {
                                                    if t.0.len() != 0 {
                                                        let w = choose|w: int|
                                                            0 <= w < ovr_before.len() && (
                                                            #[trigger] ovr_before[w]).0@ == t.0;
                                                        assert(overrides@[w].0@ == t.0);
                                                    }
                                                },
                                                None => {},
                                            }
                                        } else {
                                            assert(files_post[l] == files[i as int]);
                                            assert(overrides@[overrides@.len() - 1].0@
                                                == key_str@);
                                        }
                                    }
                                }
                            }
                        },
                    }
                }
            },
        }
        i += 1;
    }
    proof {
        assert(files.take(n as int) =~= files);
    }
    FunscriptScan { main, overrides }
}

} // verus!
