//! The merged catalog of game versions and lookups in it.

use vstd::prelude::*;
use crate::error::LaunchError;

verus! {

/// One catalog entry.
#[derive(Clone, Debug)]
pub struct MinecraftVersion {
    pub id: String,
    pub type_: String,
    pub url: String,
    pub release_time: String,
    pub sha1: String,
}

/// The contents of a catalog entry.
pub struct VersionView {
    pub id: Seq<char>,
    pub type_: Seq<char>,
    pub url: Seq<char>,
    pub release_time: Seq<char>,
    pub sha1: Seq<char>,
}

impl View for MinecraftVersion {
    type V = VersionView;

    open spec fn view(&self) -> VersionView {
        VersionView {
            id: self.id@,
            type_: self.type_@,
            url: self.url@,
            release_time: self.release_time@,
            sha1: self.sha1@,
        }
    }
}

/// Views of a list of entries.
pub open spec fn entry_views(s: Seq<MinecraftVersion>) -> Seq<VersionView> {
    s.map_values(|e: MinecraftVersion| e@)
}

/// Prefix that marks the loader-compatible duplicate of an old version.
pub open spec fn marker_spec() -> Seq<char> {
    "_"@
}

/// `a` sorts strictly before `b`, comparing characters by code point.
pub open spec fn lex_lt(a: Seq<char>, b: Seq<char>) -> bool
    decreases a.len(),
{
    if a.len() == 0 {
        b.len() > 0
    } else if b.len() == 0 {
        false
    } else if a[0] != b[0] {
        (a[0] as u32) < (b[0] as u32)
    } else {
        lex_lt(a.skip(1), b.skip(1))
    }
}

proof fn lemma_lex_trans(a: Seq<char>, b: Seq<char>, c: Seq<char>)
    requires
        lex_lt(a, b),
        lex_lt(b, c),
    ensures
        lex_lt(a, c),
    decreases a.len(),
{
    if a.len() > 0 && b.len() > 0 && c.len() > 0 && a[0] == b[0] && b[0] == c[0] {
        lemma_lex_trans(a.skip(1), b.skip(1), c.skip(1));
    }
}

proof fn lemma_lex_asym(a: Seq<char>, b: Seq<char>)
    requires
        lex_lt(a, b),
    ensures
        !lex_lt(b, a),
    decreases a.len(),
{
    if a.len() > 0 && b.len() > 0 && a[0] == b[0] {
        lemma_lex_asym(a.skip(1), b.skip(1));
    }
}

proof fn lemma_lex_total(a: Seq<char>, b: Seq<char>)
    requires
        !lex_lt(a, b),
        a != b,
    ensures
        lex_lt(b, a),
    decreases a.len(),
{
    if a.len() > 0 && b.len() > 0 && a[0] == b[0] {
        if a.skip(1) == b.skip(1) {
            assert(a =~= seq![a[0]] + a.skip(1));
            assert(b =~= seq![b[0]] + b.skip(1));
        }
        lemma_lex_total(a.skip(1), b.skip(1));
    } else if a.len() > 0 && b.len() > 0 {
        vstd::utf8::char_u32_cast(a[0], a[0] as u32);
        vstd::utf8::char_u32_cast(b[0], b[0] as u32);
    } else if a.len() == 0 && b.len() == 0 {
        assert(a =~= b);
    }
}

/// Whether `a` sorts strictly before `b`.
pub fn text_before(a: &String, b: &String) -> (r: bool)
    ensures
        r == lex_lt(a@, b@),
{
    let x = crate::text::chars_of(a.as_str());
    let y = crate::text::chars_of(b.as_str());
    let mut i: usize = 0;
    proof {
        assert(x@.skip(0) =~= x@);
        assert(y@.skip(0) =~= y@);
    }
    while i < x.len() && i < y.len()
        invariant
            i <= x@.len(),
            i <= y@.len(),
            x@ == a@,
            y@ == b@,
            lex_lt(x@, y@) == lex_lt(x@.skip(i as int), y@.skip(i as int)),
        decreases x@.len() - i,
    {
        let ghost xs = x@.skip(i as int);
        let ghost ys = y@.skip(i as int);
        proof {
            assert(xs[0] == x@[i as int] && ys[0] == y@[i as int]);
        }
        if x[i] != y[i] {
            proof {
                assert(xs.len() > 0 && ys.len() > 0);
            }
            return (x[i] as u32) < (y[i] as u32);
        }
        proof {
            assert(xs.skip(1) =~= x@.skip(i as int + 1));
            assert(ys.skip(1) =~= y@.skip(i as int + 1));
        }
        i += 1;
    }
    proof {
        assert(x@.skip(i as int).len() == x@.len() - i);
        assert(y@.skip(i as int).len() == y@.len() - i);
    }
    i == x.len() && i < y.len()
}

/// Entries ordered by release time, latest first (never a later one after an earlier one).
pub open spec fn sorted_desc(s: Seq<MinecraftVersion>) -> bool {
    forall|i: int, j: int| 0 <= i < j < s.len() ==> !lex_lt(s[i].release_time@, s[j].release_time@)
}

proof fn lemma_insert_sorted(s: Seq<MinecraftVersion>, p: int, x: MinecraftVersion)
    requires
        sorted_desc(s),
        0 <= p <= s.len(),
        forall|k: int| 0 <= k < p ==> !lex_lt(s[k].release_time@, x.release_time@),
        p < s.len() ==> lex_lt(s[p].release_time@, x.release_time@),
    ensures
        sorted_desc(s.insert(p, x)),
{
    let t = s.insert(p, x);
    assert forall|i: int, j: int| 0 <= i < j < t.len() implies !lex_lt(
        t[i].release_time@,
        t[j].release_time@,
    ) by {
        if i == p {
            let k = j - 1;
            let a = s[k].release_time@;
            let m = s[p].release_time@;
            let xv = x.release_time@;
            if a == m {
                lemma_lex_asym(a, xv);
            } else {
                if k > p {
                    lemma_lex_total(m, a);
                    lemma_lex_trans(a, m, xv);
                }
                lemma_lex_asym(a, xv);
            }
        }
    }
}

/// Inserts `x` after every entry that is not older than it.
fn insert_by_time(v: &mut Vec<MinecraftVersion>, x: MinecraftVersion)
    requires
        sorted_desc(old(v)@),
    ensures
        sorted_desc(final(v)@),
        final(v)@.to_multiset() == old(v)@.to_multiset().insert(x),
{
    let mut p: usize = 0;
    while p < v.len() && !text_before(&v[p].release_time, &x.release_time)
        invariant
            p <= v@.len(),
            forall|k: int| 0 <= k < p ==> !lex_lt(v@[k].release_time@, x.release_time@),
        decreases v@.len() - p,
    {
        p += 1;
    }
    let ghost s = v@;
    proof {
        lemma_insert_sorted(s, p as int, x);
    }
    v.insert(p, x);
    proof {
        broadcast use vstd::seq_lib::group_to_multiset_ensures;
        assert(s.insert(p as int, x).remove(p as int) =~= s);
        assert(v@.to_multiset().remove(x) =~= s.to_multiset());
        assert(v@.to_multiset() =~= s.to_multiset().insert(x));
    }
}

/// Sorts entries latest first; entries with equal times keep no particular order.
pub fn sort_by_release(v: Vec<MinecraftVersion>) -> (r: Vec<MinecraftVersion>)
    ensures
        sorted_desc(r@),
        r@.to_multiset() == v@.to_multiset(),
{
    let mut src = v;
    let mut out: Vec<MinecraftVersion> = Vec::new();
    proof {
        broadcast use vstd::seq_lib::group_to_multiset_ensures;
    }
    while src.len() > 0
        invariant
            sorted_desc(out@),
            out@.to_multiset().add(src@.to_multiset()) == v@.to_multiset(),
        decreases src@.len(),
    {
        let ghost before = src@;
        let x = src.pop().unwrap();
        proof {
            broadcast use vstd::seq_lib::group_to_multiset_ensures;
            assert(before =~= src@.push(x));
        }
        let ghost o = out@;
        insert_by_time(&mut out, x);
        proof {
            assert(out@.to_multiset().add(src@.to_multiset()) =~= o.to_multiset().add(before.to_multiset()));
        }
    }
    proof {
        broadcast use vstd::seq_lib::group_to_multiset_ensures;
        assert(out@.to_multiset().add(src@.to_multiset()) =~= out@.to_multiset());
    }
    out
}

/// Index of the first entry with id `id`.
pub open spec fn find_first(s: Seq<VersionView>, id: Seq<char>) -> Option<int>
    decreases s.len(),
{
    if s.len() == 0 {
        None
    } else {
        match find_first(s.drop_last(), id) {
            Some(i) => Some(i),
            None => if s.last().id == id {
                Some(s.len() - 1)
            } else {
                None
            },
        }
    }
}

proof fn lemma_find_first_bounds(s: Seq<VersionView>, id: Seq<char>)
    ensures
        find_first(s, id) matches Some(i) ==> 0 <= i < s.len() && s[i].id == id,
        find_first(s, id) is None ==> forall|k: int| 0 <= k < s.len() ==> s[k].id != id,
    decreases s.len(),
{
    if s.len() > 0 {
        lemma_find_first_bounds(s.drop_last(), id);
        assert forall|k: int| 0 <= k < s.len() - 1 implies s[k] == s.drop_last()[k] by {}
    }
}

/// Position of the first entry whose id is `id`.
pub fn position_of(s: &Vec<MinecraftVersion>, id: &String) -> (r: Option<usize>)
    ensures
        match r {
            Some(i) => find_first(entry_views(s@), id@) == Some(i as int),
            None => find_first(entry_views(s@), id@) is None,
        },
{
    let mut i: usize = 0;
    while i < s.len()
        invariant
            i <= s@.len(),
            find_first(entry_views(s@.take(i as int)), id@) is None,
        decreases s@.len() - i,
    {
        proof {
            assert(entry_views(s@.take(i as int + 1)).drop_last() =~= entry_views(s@.take(i as int)));
        }
        if s[i].id == *id {
            proof {
                assert(entry_views(s@).take(i as int + 1) =~= entry_views(s@.take(i as int + 1)));
                lemma_find_first_prefix(entry_views(s@), i as int + 1, id@);
            }
            return Some(i);
        }
        i += 1;
    }
    proof {
        assert(s@.take(s@.len() as int) =~= s@);
    }
    None
}

proof fn lemma_find_first_prefix(s: Seq<VersionView>, n: int, id: Seq<char>)
    requires
        0 <= n <= s.len(),
        find_first(s.take(n), id) is Some,
    ensures
        find_first(s, id) == find_first(s.take(n), id),
    decreases s.len(),
{
    if n < s.len() {
        assert(s.drop_last().take(n) =~= s.take(n));
        lemma_find_first_prefix(s.drop_last(), n, id);
    } else {
        assert(s.take(n) =~= s);
    }
}

/// The loader-compatible duplicate of an entry: the marker before its id,
/// its url and checksum, no type and no release time.
pub open spec fn marker_entry_spec(e: VersionView) -> VersionView {
    VersionView {
        id: marker_spec() + e.id,
        type_: Seq::<char>::empty(),
        url: e.url,
        release_time: Seq::<char>::empty(),
        sha1: e.sha1,
    }
}

/// Duplicates for the allow-listed ids, in allow-list order; an id absent
/// from the catalog contributes nothing.
pub open spec fn marker_block_spec(keep: Seq<Seq<char>>, catalog: Seq<VersionView>) -> Seq<VersionView>
    decreases keep.len(),
{
    if keep.len() == 0 {
        Seq::<VersionView>::empty()
    } else {
        marker_block_spec(keep.drop_last(), catalog) + match find_first(catalog, keep.last()) {
            Some(i) => seq![marker_entry_spec(catalog[i])],
            None => Seq::<VersionView>::empty(),
        }
    }
}

/// Views of a list of strings.
pub open spec fn id_views(v: Seq<String>) -> Seq<Seq<char>> {
    v.map_values(|s: String| s@)
}

/// The duplicate of one entry, carrying the marker prefix.
pub fn marker_entry(e: &MinecraftVersion) -> (r: MinecraftVersion)
    ensures
        r@ == marker_entry_spec(e@),
{
    let mut id = String::from_str("_");
    id.append(e.id.as_str());
    MinecraftVersion {
        id,
        type_: String::new(),
        url: e.url.clone(),
        release_time: String::new(),
        sha1: e.sha1.clone(),
    }
}

/// The marker block for `keep` over `catalog`.
pub fn marker_block(keep: &Vec<String>, catalog: &Vec<MinecraftVersion>) -> (r: Vec<MinecraftVersion>)
    ensures
        entry_views(r@) == marker_block_spec(id_views(keep@), entry_views(catalog@)),
{
    let mut out: Vec<MinecraftVersion> = Vec::new();
    let mut i: usize = 0;
    while i < keep.len()
        invariant
            i <= keep@.len(),
            entry_views(out@) == marker_block_spec(id_views(keep@.take(i as int)), entry_views(catalog@)),
        decreases keep@.len() - i,
    {
        proof {
            assert(id_views(keep@.take(i as int + 1)).drop_last() =~= id_views(keep@.take(i as int)));
            lemma_find_first_bounds(entry_views(catalog@), keep@[i as int]@);
        }
        let ghost before = out@;
        match position_of(catalog, &keep[i]) {
            Some(p) => {
                let m = marker_entry(&catalog[p]);
                out.push(m);
                proof {
                    assert(entry_views(out@) =~= entry_views(before) + seq![m@]);
                }
            },
            None => {
                proof {
                    assert(entry_views(out@) =~= entry_views(before) + Seq::<VersionView>::empty());
                }
            },
        }
        i += 1;
    }
    proof {
        assert(keep@.take(keep@.len() as int) =~= keep@);
    }
    out
}

/// Merges the three catalogs: the primary one without its last `overlap`
/// entries (already carried by the corrected catalog), the corrected one
/// and the supplementary one, sorted latest first; then the marker
/// duplicates of the allow-listed ids, in allow-list order. A primary
/// catalog shorter than `overlap` is malformed.
pub fn merge_catalogs(
    primary: Vec<MinecraftVersion>,
    corrected: Vec<MinecraftVersion>,
    extra: Vec<MinecraftVersion>,
    overlap: usize,
    keep: &Vec<String>,
) -> (r: Result<Vec<MinecraftVersion>, LaunchError>)
    ensures
        primary@.len() < overlap ==> r == Err::<Vec<MinecraftVersion>, LaunchError>(LaunchError::MalformedManifest),
        primary@.len() >= overlap ==> (r matches Ok(v) && ({
            let kept = primary@.len() - overlap;
            let n = kept + corrected@.len() + extra@.len();
            &&& v@.len() >= n
            &&& sorted_desc(v@.take(n as int))
            &&& v@.take(n as int).to_multiset() == (primary@.take(kept as int) + corrected@ + extra@).to_multiset()
            &&& entry_views(v@.skip(n as int)) == marker_block_spec(id_views(keep@), entry_views(primary@))
        })),
{
    if primary.len() < overlap {
        return Err(LaunchError::MalformedManifest);
    }
    let markers = marker_block(keep, &primary);
    let ghost p0 = primary@;
    let mut all = primary;
    let cut = all.len() - overlap;
    all.truncate(cut);
    let mut c = corrected;
    let mut x = extra;
    all.append(&mut c);
    all.append(&mut x);
    let ghost combined = all@;
    proof {
        assert(combined =~= p0.take(cut as int) + corrected@ + extra@);
    }
    let mut sorted = sort_by_release(all);
    let ghost sv = sorted@;
    let mut m = markers;
    let ghost mv = m@;
    sorted.append(&mut m);
    proof {
        assert(sorted@.take(sv.len() as int) =~= sv);
        assert(sorted@.skip(sv.len() as int) =~= mv);
        broadcast use vstd::seq_lib::group_to_multiset_ensures;
        assert(sv.to_multiset().len() == combined.to_multiset().len());
        assert(sv.len() == combined.len());
    }
    Ok(sorted)
}

/// The entry with id `id` (the first, should there be several).
pub fn get_version(versions: &Vec<MinecraftVersion>, id: &String) -> (r: Result<MinecraftVersion, LaunchError>)
    ensures
        match find_first(entry_views(versions@), id@) {
            Some(i) => r is Ok && r->Ok_0@ == versions@[i]@,
            None => r == Err::<MinecraftVersion, LaunchError>(LaunchError::NotFound),
        },
{
    proof {
        lemma_find_first_bounds(entry_views(versions@), id@);
    }
    match position_of(versions, id) {
        Some(i) => {
            let e = &versions[i];
            Ok(
                MinecraftVersion {
                    id: e.id.clone(),
                    type_: e.type_.clone(),
                    url: e.url.clone(),
                    release_time: e.release_time.clone(),
                    sha1: e.sha1.clone(),
                },
            )
        },
        None => Err(LaunchError::NotFound),
    }
}

/// The id with the marker prefix removed, if it has one.
pub open spec fn strip_marker_spec(id: Seq<char>) -> Seq<char> {
    if id.len() > 0 && id[0] == '_' {
        id.skip(1)
    } else {
        id
    }
}

/// Whether the id carries the marker prefix.
pub fn has_marker(id: &String) -> (r: bool)
    ensures
        r == (id@.len() > 0 && id@[0] == '_'),
{
    id.unicode_len() > 0 && id.as_str().get_char(0) == '_'
}

/// The game version an id stands for: the id without its marker prefix.
pub fn strip_marker(id: &String) -> (r: String)
    ensures
        r@ == strip_marker_spec(id@),
{
    let n = id.unicode_len();
    if n > 0 && id.as_str().get_char(0) == '_' {
        String::from_str(id.as_str().substring_char(1, n))
    } else {
        id.clone()
    }
}

/// Trailing entries of the primary catalog that the corrected catalog also carries.
pub const CATALOG_OVERLAP: usize = 349;

/// Old versions that also get a loader-compatible duplicate.
pub open spec fn marker_allow_list_spec() -> Seq<Seq<char>> {
    seq![
        "1.3.2"@,
        "1.4"@,
        "1.4.1"@,
        "1.4.2"@,
        "1.4.3"@,
        "1.4.4"@,
        "1.4.5"@,
        "1.4.6"@,
        "1.4.7"@,
        "1.5"@,
        "1.5.1"@,
        "1.5.2"@,
    ]
}

/// The versions that get a loader-compatible duplicate, in block order.
pub fn marker_allow_list() -> (r: Vec<String>)
    ensures
        id_views(r@) == marker_allow_list_spec(),
{
    let mut v: Vec<String> = Vec::new();
    v.push(String::from_str("1.3.2"));
    v.push(String::from_str("1.4"));
    v.push(String::from_str("1.4.1"));
    v.push(String::from_str("1.4.2"));
    v.push(String::from_str("1.4.3"));
    v.push(String::from_str("1.4.4"));
    v.push(String::from_str("1.4.5"));
    v.push(String::from_str("1.4.6"));
    v.push(String::from_str("1.4.7"));
    v.push(String::from_str("1.5"));
    v.push(String::from_str("1.5.1"));
    v.push(String::from_str("1.5.2"));
    proof {
        assert(id_views(v@) =~= marker_allow_list_spec());
    }
    v
}

} // verus!
