//! Zip archives: finding an entry, merging two archives, unpacking, and
//! reading the main class from a jar manifest.

use vstd::prelude::*;
use crate::error::LaunchError;
use crate::text::{chars_of, contains, contains_seq, occurs_at, starts_with};
use crate::templater::{string_views, is_blank};

verus! {

/// Number of entries of the zip archive `archive`, if it can be read.
pub uninterp spec fn zip_entry_count(archive: Seq<u8>) -> Option<int>;

/// Name of entry `index` of the zip archive `archive`, if it can be read.
pub uninterp spec fn zip_entry_name(archive: Seq<u8>, index: int) -> Option<Seq<char>>;

/// Uncompressed content of entry `index` of the zip archive `archive`, if it can be read.
pub uninterp spec fn zip_entry_data(archive: Seq<u8>, index: int) -> Option<Seq<u8>>;

/// The deflate-compressed zip archive holding the named files in order.
pub uninterp spec fn zip_built(names: Seq<Seq<char>>, data: Seq<Seq<u8>>) -> Option<Seq<u8>>;

/// Relies on `zip::ZipArchive::new` and `ZipArchive::len`: the number of entries.
#[verifier::external_body]
fn entry_count(archive: &Vec<u8>) -> (r: Option<usize>)
    ensures
        match r {
            Some(n) => zip_entry_count(archive@) == Some(n as int),
            None => zip_entry_count(archive@) is None,
        },
{
    zip::ZipArchive::new(std::io::Cursor::new(archive.as_slice())).ok().map(|a| a.len())
}

/// Relies on `zip::ZipArchive::by_index_raw` (no decryption, no decompression)
/// and `ZipFile::name`: the name of entry `index`.
#[verifier::external_body]
fn entry_name(archive: &Vec<u8>, index: usize) -> (r: Option<String>)
    ensures
        match r {
            Some(s) => zip_entry_name(archive@, index as int) == Some(s@),
            None => zip_entry_name(archive@, index as int) is None,
        },
{
    let mut a = zip::ZipArchive::new(std::io::Cursor::new(archive.as_slice())).ok()?;
    let f = a.by_index_raw(index).ok()?;
    Some(f.name().to_string())
}

/// Relies on `zip::ZipArchive::by_index_decrypt` with an empty password, read
/// to the end: the content of entry `index` (none when it cannot be opened or read).
#[verifier::external_body]
fn entry_data(archive: &Vec<u8>, index: usize) -> (r: Option<Vec<u8>>)
    ensures
        match r {
            Some(d) => zip_entry_data(archive@, index as int) == Some(d@),
            None => zip_entry_data(archive@, index as int) is None,
        },
{
    let mut a = zip::ZipArchive::new(std::io::Cursor::new(archive.as_slice())).ok()?;
    let mut f = a.by_index_decrypt(index, &[]).ok()?.ok()?;
    let mut out: Vec<u8> = Vec::new();
    std::io::Read::read_to_end(&mut f, &mut out).ok()?;
    Some(out)
}

/// Relies on `zip::ZipWriter` (`start_file` with deflate and the fixed
/// default timestamp, `write_all`, `finish`): an archive of the given entries in order.
#[verifier::external_body]
fn build_zip(names: &Vec<String>, data: &Vec<Vec<u8>>) -> (r: Option<Vec<u8>>)
    ensures
        match r {
            Some(b) => zip_built(string_views(names@), data@.map_values(|d: Vec<u8>| d@)) == Some(b@),
            None => zip_built(string_views(names@), data@.map_values(|d: Vec<u8>| d@)) is None,
        },
{
    let mut w = zip::ZipWriter::new(std::io::Cursor::new(Vec::new()));
    for (name, bytes) in names.iter().zip(data.iter()) {
        let options = zip::write::FileOptions::default()
            .compression_method(zip::CompressionMethod::Deflated)
            .last_modified_time(zip::DateTime::default());
        w.start_file(name.as_str(), options).ok()?;
        std::io::Write::write_all(&mut w, bytes).ok()?;
    }
    w.finish().ok().map(|c| c.into_inner())
}

/// The entry names of an archive, when the count and every name can be read.
pub open spec fn names_of(archive: Seq<u8>) -> Option<Seq<Seq<char>>> {
    match zip_entry_count(archive) {
        None => None,
        Some(n) => if forall|i: int| 0 <= i < n ==> (#[trigger] zip_entry_name(archive, i)) is Some {
            Some(Seq::new(n as nat, |i: int| zip_entry_name(archive, i)->Some_0))
        } else {
            None
        },
    }
}

/// Reads the entry names of an archive.
pub fn entry_names(archive: &Vec<u8>) -> (r: Option<Vec<String>>)
    ensures
        match r {
            Some(v) => names_of(archive@) == Some(string_views(v@)),
            None => names_of(archive@) is None,
        },
{
    let n = match entry_count(archive) {
        Some(n) => n,
        None => return None,
    };
    let mut out: Vec<String> = Vec::new();
    let mut i: usize = 0;
    while i < n
        invariant
            i <= n,
            zip_entry_count(archive@) == Some(n as int),
            out@.len() == i,
            forall|k: int| 0 <= k < i ==> zip_entry_name(archive@, k) == Some(#[trigger] out@[k]@),
        decreases n - i,
    {
        match entry_name(archive, i) {
            Some(s) => out.push(s),
            None => {
                proof {
                    assert(!(forall|q: int| 0 <= q < n ==> (#[trigger] zip_entry_name(archive@, q)) is Some));
                }
                return None;
            },
        }
        i += 1;
    }
    proof {
        assert forall|q: int| 0 <= q < n implies (#[trigger] zip_entry_name(archive@, q)) is Some by {
            assert(zip_entry_name(archive@, q) == Some(out@[q]@));
        }
        assert(string_views(out@) =~= Seq::new(n as nat, |k: int| zip_entry_name(archive@, k)->Some_0));
    }
    Some(out)
}

/// The name lies in the reserved metadata directory.
pub open spec fn is_meta(name: Seq<char>) -> bool {
    occurs_at(name, 0, "META-INF/"@)
}

/// Index of the first name that contains `part`.
pub open spec fn first_containing(names: Seq<Seq<char>>, part: Seq<char>) -> Option<int>
    decreases names.len(),
{
    if names.len() == 0 {
        None
    } else {
        match first_containing(names.drop_last(), part) {
            Some(i) => Some(i),
            None => if contains_seq(names.last(), part) {
                Some(names.len() - 1)
            } else {
                None
            },
        }
    }
}

proof fn lemma_first_containing(names: Seq<Seq<char>>, part: Seq<char>, n: int)
    requires
        0 <= n <= names.len(),
        first_containing(names.take(n), part) is Some,
    ensures
        first_containing(names, part) == first_containing(names.take(n), part),
    decreases names.len(),
{
    if n < names.len() {
        assert(names.drop_last().take(n) =~= names.take(n));
        lemma_first_containing(names.drop_last(), part, n);
    } else {
        assert(names.take(n) =~= names);
    }
}

/// Index of the first entry name that contains `part`.
pub fn find_entry(names: &Vec<String>, part: &str) -> (r: Option<usize>)
    ensures
        match r {
            Some(i) => first_containing(string_views(names@), part@) == Some(i as int),
            None => first_containing(string_views(names@), part@) is None,
        },
{
    let p = chars_of(part);
    let mut i: usize = 0;
    while i < names.len()
        invariant
            i <= names@.len(),
            p@ == part@,
            first_containing(string_views(names@.take(i as int)), part@) is None,
        decreases names@.len() - i,
    {
        proof {
            assert(string_views(names@.take(i as int + 1)).drop_last() =~= string_views(names@.take(i as int)));
        }
        if contains(&chars_of(names[i].as_str()), &p) {
            proof {
                assert(string_views(names@).take(i as int + 1) =~= string_views(names@.take(i as int + 1)));
                lemma_first_containing(string_views(names@), part@, i as int + 1);
            }
            return Some(i);
        }
        i += 1;
    }
    proof {
        assert(names@.take(names@.len() as int) =~= names@);
    }
    None
}

/// The content of the first entry whose name contains `part`: malformed
/// metadata when the archive or that entry cannot be read, not-found when
/// no name contains `part`.
pub open spec fn extract_spec(archive: Seq<u8>, part: Seq<char>) -> Result<Seq<u8>, LaunchError> {
    match names_of(archive) {
        None => Err(LaunchError::MalformedManifest),
        Some(ns) => match first_containing(ns, part) {
            None => Err(LaunchError::NotFound),
            Some(i) => match zip_entry_data(archive, i) {
                Some(d) => Ok(d),
                None => Err(LaunchError::MalformedManifest),
            },
        },
    }
}

/// The content of the first entry whose name contains `part`.
pub fn extract_file(archive: &Vec<u8>, part: &str) -> (r: Result<Vec<u8>, LaunchError>)
    ensures
        match r {
            Ok(d) => extract_spec(archive@, part@) == Ok::<Seq<u8>, LaunchError>(d@),
            Err(e) => extract_spec(archive@, part@) == Err::<Seq<u8>, LaunchError>(e),
        },
{
    let names = match entry_names(archive) {
        Some(n) => n,
        None => return Err(LaunchError::MalformedManifest),
    };
    match find_entry(&names, part) {
        None => Err(LaunchError::NotFound),
        Some(i) => match entry_data(archive, i) {
            Some(d) => Ok(d),
            None => Err(LaunchError::MalformedManifest),
        },
    }
}

/// Which entries a merge keeps, as (from the source archive, index): the
/// source's entries in order, then the target's entries whose names the
/// source lacks; each name once, at its first occurrence; with
/// `exclude_meta`, entries in the metadata directory are dropped.
pub open spec fn merge_selection_spec(source: Seq<Seq<char>>, target: Seq<Seq<char>>, exclude_meta: bool) -> Seq<(bool, int)> {
    source_selection(source, exclude_meta, source.len() as int) + target_selection(target, source, exclude_meta, target.len() as int)
}

/// The kept source entries among the first `n`.
pub open spec fn source_selection(source: Seq<Seq<char>>, exclude_meta: bool, n: int) -> Seq<(bool, int)>
    decreases n,
{
    if n <= 0 {
        Seq::empty()
    } else {
        source_selection(source, exclude_meta, n - 1) + if (exclude_meta && is_meta(source[n - 1]))
            || source.take(n - 1).contains(source[n - 1]) {
            Seq::empty()
        } else {
            seq![(true, n - 1)]
        }
    }
}

/// The kept target entries among the first `n`.
pub open spec fn target_selection(target: Seq<Seq<char>>, source: Seq<Seq<char>>, exclude_meta: bool, n: int) -> Seq<(bool, int)>
    decreases n,
{
    if n <= 0 {
        Seq::empty()
    } else {
        target_selection(target, source, exclude_meta, n - 1) + if (exclude_meta && is_meta(target[n - 1]))
            || source.contains(target[n - 1]) || target.take(n - 1).contains(target[n - 1]) {
            Seq::empty()
        } else {
            seq![(false, n - 1)]
        }
    }
}

fn is_meta_name(name: &String) -> (r: bool)
    ensures
        r == is_meta(name@),
{
    starts_with(&chars_of(name.as_str()), &chars_of("META-INF/"))
}

fn listed(names: &Vec<String>, n: usize, name: &String) -> (r: bool)
    requires
        n <= names@.len(),
    ensures
        r == string_views(names@).take(n as int).contains(name@),
{
    let mut i: usize = 0;
    while i < n
        invariant
            n <= names@.len(),
            i <= n,
            forall|k: int| 0 <= k < i ==> names@[k]@ != name@,
        decreases n - i,
    {
        if names[i] == *name {
            proof {
                assert(string_views(names@).take(n as int)[i as int] == name@);
            }
            return true;
        }
        i += 1;
    }
    proof {
        assert forall|k: int| 0 <= k < string_views(names@).take(n as int).len() implies string_views(names@).take(
            n as int,
        )[k] != name@ by {
            assert(string_views(names@).take(n as int)[k] == names@[k]@);
        }
    }
    false
}

/// Selects the entries of a merge from the two archives' names.
pub fn merge_selection(source: &Vec<String>, target: &Vec<String>, exclude_meta: bool) -> (r: Vec<(bool, usize)>)
    ensures
        r@.map_values(|p: (bool, usize)| (p.0, p.1 as int)) == merge_selection_spec(string_views(source@), string_views(target@), exclude_meta),
{
    let ghost sv = string_views(source@);
    let ghost tv = string_views(target@);
    let mut out: Vec<(bool, usize)> = Vec::new();
    let mut i: usize = 0;
    while i < source.len()
        invariant
            i <= source@.len(),
            sv == string_views(source@),
            out@.map_values(|p: (bool, usize)| (p.0, p.1 as int)) == source_selection(sv, exclude_meta, i as int),
        decreases source@.len() - i,
    {
        let ghost before = out@.map_values(|p: (bool, usize)| (p.0, p.1 as int));
        let meta = exclude_meta && is_meta_name(&source[i]);
        let seen = listed(source, i, &source[i]);
        if !(meta || seen) {
            out.push((true, i));
            proof {
                assert(out@.map_values(|p: (bool, usize)| (p.0, p.1 as int)) =~= before.push((true, i as int)));
            }
        } else {
            proof {
                assert(out@.map_values(|p: (bool, usize)| (p.0, p.1 as int)) =~= before);
            }
        }
        proof {
            assert(sv[i as int] == source@[i as int]@);
            assert(out@.map_values(|p: (bool, usize)| (p.0, p.1 as int)) =~= source_selection(sv, exclude_meta, i as int + 1));
        }
        i += 1;
    }
    let ghost mid = out@.map_values(|p: (bool, usize)| (p.0, p.1 as int));
    let mut j: usize = 0;
    while j < target.len()
        invariant
            j <= target@.len(),
            sv == string_views(source@),
            tv == string_views(target@),
            mid == source_selection(sv, exclude_meta, sv.len() as int),
            out@.map_values(|p: (bool, usize)| (p.0, p.1 as int)) == mid + target_selection(tv, sv, exclude_meta, j as int),
        decreases target@.len() - j,
    {
        let ghost before = out@.map_values(|p: (bool, usize)| (p.0, p.1 as int));
        let meta = exclude_meta && is_meta_name(&target[j]);
        let dup = listed(source, source.len(), &target[j]);
        let seen = listed(target, j, &target[j]);
        if !(meta || dup || seen) {
            out.push((false, j));
            proof {
                assert(out@.map_values(|p: (bool, usize)| (p.0, p.1 as int)) =~= before.push((false, j as int)));
            }
        } else {
            proof {
                assert(out@.map_values(|p: (bool, usize)| (p.0, p.1 as int)) =~= before);
            }
        }
        proof {
            assert(tv[j as int] == target@[j as int]@);
            assert(sv.take(sv.len() as int) =~= sv);
            assert(out@.map_values(|p: (bool, usize)| (p.0, p.1 as int)) =~= mid + target_selection(tv, sv, exclude_meta, j as int + 1));
        }
        j += 1;
    }
    out
}

/// The names of the selected entries.
pub open spec fn selected_names(sel: Seq<(bool, int)>, sn: Seq<Seq<char>>, tn: Seq<Seq<char>>) -> Seq<Seq<char>> {
    sel.map_values(|p: (bool, int)| if p.0 { sn[p.1] } else { tn[p.1] })
}

/// The contents of the selected entries, as read from their archives.
pub open spec fn selected_data(sel: Seq<(bool, int)>, source: Seq<u8>, target: Seq<u8>) -> Seq<Option<Seq<u8>>> {
    sel.map_values(|p: (bool, int)| zip_entry_data(if p.0 { source } else { target }, p.1))
}

/// Every content could be read.
pub open spec fn all_read(d: Seq<Option<Seq<u8>>>) -> bool {
    forall|k: int| 0 <= k < d.len() ==> (#[trigger] d[k]) is Some
}

/// The merge of `source` into `target`: the archive of the selected entries
/// with their contents; nothing when a name list, a content or the writing fails.
pub open spec fn merge_result(source: Seq<u8>, target: Seq<u8>, exclude_meta: bool) -> Option<Seq<u8>> {
    match (names_of(source), names_of(target)) {
        (Some(sn), Some(tn)) => {
            let sel = merge_selection_spec(sn, tn, exclude_meta);
            let d = selected_data(sel, source, target);
            if all_read(d) {
                zip_built(selected_names(sel, sn, tn), d.map_values(|o: Option<Seq<u8>>| o->Some_0))
            } else {
                None
            }
        },
        _ => None,
    }
}

/// Merges two archives: the source's entries, then the target's entries the
/// source lacks by name, each name once, dropping the metadata directory
/// when asked. Fails with malformed metadata exactly when [`merge_result`] is nothing.
pub fn merge_zips(target: &Vec<u8>, source: &Vec<u8>, exclude_meta_inf: bool) -> (r: Result<Vec<u8>, LaunchError>)
    ensures
        match r {
            Ok(b) => merge_result(source@, target@, exclude_meta_inf) == Some(b@),
            Err(e) => e == LaunchError::MalformedManifest && merge_result(source@, target@, exclude_meta_inf) is None,
        },
{
    let sn = match entry_names(source) {
        Some(n) => n,
        None => return Err(LaunchError::MalformedManifest),
    };
    let tn = match entry_names(target) {
        Some(n) => n,
        None => return Err(LaunchError::MalformedManifest),
    };
    let sel = merge_selection(&sn, &tn, exclude_meta_inf);
    let ghost selv = sel@.map_values(|p: (bool, usize)| (p.0, p.1 as int));
    let ghost snv = string_views(sn@);
    let ghost tnv = string_views(tn@);
    let ghost ds = selected_data(selv, source@, target@);
    proof {
        lemma_selection_bounds(snv, tnv, exclude_meta_inf);
    }
    let mut names: Vec<String> = Vec::new();
    let mut data: Vec<Vec<u8>> = Vec::new();
    let mut k: usize = 0;
    while k < sel.len()
        invariant
            k <= sel@.len(),
            selv == sel@.map_values(|p: (bool, usize)| (p.0, p.1 as int)),
            selv == merge_selection_spec(snv, tnv, exclude_meta_inf),
            ds == selected_data(selv, source@, target@),
            names_of(source@) == Some(snv),
            names_of(target@) == Some(tnv),
            snv == string_views(sn@),
            tnv == string_views(tn@),
            forall|q: int| 0 <= q < selv.len() ==> 0 <= (#[trigger] selv[q]).1 && (if selv[q].0 { selv[q].1 < snv.len() } else { selv[q].1 < tnv.len() }),
            names@.len() == k,
            data@.len() == k,
            forall|q: int| 0 <= q < k ==> (#[trigger] names@[q])@ == (if selv[q].0 { snv[selv[q].1] } else { tnv[selv[q].1] }),
            forall|q: int| 0 <= q < k ==> ds[q] == Some((#[trigger] data@[q])@),
        decreases sel@.len() - k,
    {
        let (from_source, idx) = sel[k];
        proof {
            assert(selv[k as int] == (from_source, idx as int));
        }
        let archive = if from_source { source } else { target };
        let name = if from_source { sn[idx].clone() } else { tn[idx].clone() };
        let bytes = match entry_data(archive, idx) {
            Some(d) => d,
            None => {
                proof {
                    assert(ds[k as int] is None);
                    assert(!all_read(ds));
                }
                return Err(LaunchError::MalformedManifest);
            },
        };
        names.push(name);
        data.push(bytes);
        k += 1;
    }
    proof {
        assert forall|q: int| 0 <= q < ds.len() implies (#[trigger] ds[q]) is Some by {
            assert(ds[q] == Some(data@[q]@));
        }
        assert(string_views(names@) =~= selected_names(selv, snv, tnv));
        assert(data@.map_values(|d: Vec<u8>| d@) =~= ds.map_values(|o: Option<Seq<u8>>| o->Some_0));
    }
    match build_zip(&names, &data) {
        Some(b) => Ok(b),
        None => Err(LaunchError::MalformedManifest),
    }
}

proof fn lemma_selection_bounds(sn: Seq<Seq<char>>, tn: Seq<Seq<char>>, ex: bool)
    ensures
        forall|q: int| 0 <= q < merge_selection_spec(sn, tn, ex).len() ==> 0 <= (#[trigger] merge_selection_spec(sn, tn, ex)[q]).1
            && (if merge_selection_spec(sn, tn, ex)[q].0 { merge_selection_spec(sn, tn, ex)[q].1 < sn.len() } else { merge_selection_spec(sn, tn, ex)[q].1 < tn.len() }),
{
    lemma_source_bounds(sn, ex, sn.len() as int);
    lemma_target_bounds(tn, sn, ex, tn.len() as int);
}

proof fn lemma_source_bounds(sn: Seq<Seq<char>>, ex: bool, n: int)
    requires
        n <= sn.len(),
    ensures
        forall|q: int| 0 <= q < source_selection(sn, ex, n).len() ==> (#[trigger] source_selection(sn, ex, n)[q]).0
            && 0 <= source_selection(sn, ex, n)[q].1 < n,
    decreases n,
{
    if n > 0 {
        lemma_source_bounds(sn, ex, n - 1);
        let prev = source_selection(sn, ex, n - 1);
        let cur = source_selection(sn, ex, n);
        assert forall|q: int| 0 <= q < cur.len() implies (#[trigger] cur[q]).0 && 0 <= cur[q].1 < n by {
            if q < prev.len() {
                assert(cur[q] == prev[q]);
            }
        }
    }
}

proof fn lemma_target_bounds(tn: Seq<Seq<char>>, sn: Seq<Seq<char>>, ex: bool, n: int)
    requires
        n <= tn.len(),
    ensures
        forall|q: int| 0 <= q < target_selection(tn, sn, ex, n).len() ==> !(#[trigger] target_selection(tn, sn, ex, n)[q]).0
            && 0 <= target_selection(tn, sn, ex, n)[q].1 < n,
    decreases n,
{
    if n > 0 {
        lemma_target_bounds(tn, sn, ex, n - 1);
        let prev = target_selection(tn, sn, ex, n - 1);
        let cur = target_selection(tn, sn, ex, n);
        assert forall|q: int| 0 <= q < cur.len() implies !(#[trigger] cur[q]).0 && 0 <= cur[q].1 < n by {
            if q < prev.len() {
                assert(cur[q] == prev[q]);
            }
        }
    }
}

/// Relies on `String::from_utf8`: the text the bytes encode, when they are valid UTF-8.
#[verifier::external_body]
fn utf8_text(bytes: Vec<u8>) -> (r: Option<String>)
    ensures
        r is Some <==> vstd::utf8::valid_utf8(bytes@),
        r matches Some(s) ==> s@ == vstd::utf8::decode_utf8(bytes@),
{
    String::from_utf8(bytes).ok()
}

/// A `Main-Class: ` header starts at `i` and is followed by at least one
/// character other than a line feed.
pub open spec fn header_at(t: Seq<char>, i: int) -> bool {
    occurs_at(t, i, "Main-Class: "@) && i + 12 < t.len() && t[i + 12] != '\n'
}

/// `m` is what `Main-Class: (.+)` captures in `t`: at the leftmost header,
/// the longest run of characters other than a line feed.
pub open spec fn captured(t: Seq<char>, m: Seq<char>) -> bool {
    exists|i: int, e: int|
        #![trigger t.subrange(i + 12, e)]
        header_at(t, i) && (forall|j: int| 0 <= j < i ==> !header_at(t, j)) && i + 12 < e <= t.len() && (forall|k: int|
            i + 12 <= k < e ==> t[k] != '\n') && (e == t.len() || t[e] == '\n') && m == t.subrange(i + 12, e)
}

/// Relies on `regex::Regex::captures` with the pattern `Main-Class: (.+)`
/// (`.` matches anything but a line feed; leftmost match, greedy): the first group.
#[verifier::external_body]
fn main_class_capture(text: &str) -> (r: Option<String>)
    ensures
        r is None <==> !(exists|i: int| header_at(text@, i)),
        r matches Some(m) ==> captured(text@, m@),
{
    let re = regex::Regex::new(r"Main-Class: (.+)").ok()?;
    re.captures(text).and_then(|c| c.get(1)).map(|m| m.as_str().to_string())
}

/// `s` without its leading blanks.
pub open spec fn trim_start_spec(s: Seq<char>) -> Seq<char>
    decreases s.len(),
{
    if s.len() > 0 && is_blank(s[0]) {
        trim_start_spec(s.skip(1))
    } else {
        s
    }
}

/// `s` without its trailing blanks.
pub open spec fn trim_end_spec(s: Seq<char>) -> Seq<char>
    decreases s.len(),
{
    if s.len() > 0 && is_blank(s.last()) {
        trim_end_spec(s.drop_last())
    } else {
        s
    }
}

/// `s` without leading and trailing blanks.
pub fn trim_blanks(s: &String) -> (r: String)
    ensures
        r@ == trim_end_spec(trim_start_spec(s@)),
{
    let cs = chars_of(s.as_str());
    let mut a: usize = 0;
    proof {
        assert(cs@.skip(0) =~= cs@);
    }
    while a < cs.len() && (cs[a] == ' ' || cs[a] == '\t' || cs[a] == '\n' || cs[a] == '\r')
        invariant
            a <= cs@.len(),
            cs@ == s@,
            trim_start_spec(cs@) == trim_start_spec(cs@.skip(a as int)),
        decreases cs@.len() - a,
    {
        proof {
            assert(cs@.skip(a as int).skip(1) =~= cs@.skip(a as int + 1));
        }
        a += 1;
    }
    let mut b: usize = cs.len();
    proof {
        assert(cs@.skip(a as int).len() == 0 || !is_blank(cs@.skip(a as int)[0]));
        assert(trim_start_spec(cs@) == cs@.subrange(a as int, cs@.len() as int));
    }
    while b > a && (cs[b - 1] == ' ' || cs[b - 1] == '\t' || cs[b - 1] == '\n' || cs[b - 1] == '\r')
        invariant
            a <= b <= cs@.len(),
            trim_end_spec(cs@.subrange(a as int, cs@.len() as int)) == trim_end_spec(cs@.subrange(a as int, b as int)),
        decreases b,
    {
        proof {
            assert(cs@.subrange(a as int, b as int).drop_last() =~= cs@.subrange(a as int, b - 1));
        }
        b -= 1;
    }
    let mut out: Vec<char> = Vec::new();
    let mut k: usize = a;
    while k < b
        invariant
            a <= k <= b <= cs@.len(),
            out@ == cs@.subrange(a as int, k as int),
        decreases b - k,
    {
        out.push(cs[k]);
        proof {
            assert(cs@.subrange(a as int, k as int + 1) =~= cs@.subrange(a as int, k as int).push(cs@[k as int]));
        }
        k += 1;
    }
    proof {
        let t = cs@.subrange(a as int, b as int);
        assert(t.len() == 0 || !is_blank(t.last()));
        assert(trim_end_spec(t) == t);
    }
    crate::text::string_of(&out)
}

/// The main class a jar names: in the first entry whose name contains
/// `MANIFEST.MF`, the `Main-Class: (.+)` capture, as it stands. Errors as
/// [`extract_spec`] for the entry; malformed metadata when its text is not
/// UTF-8; not-found when the text has no such header.
pub fn extract_main_class(jar: &Vec<u8>) -> (r: Result<String, LaunchError>)
    ensures
        match extract_spec(jar@, "MANIFEST.MF"@) {
            Err(e) => r == Err::<String, LaunchError>(e),
            Ok(d) => if !vstd::utf8::valid_utf8(d) {
                r == Err::<String, LaunchError>(LaunchError::MalformedManifest)
            } else if exists|k: int| header_at(vstd::utf8::decode_utf8(d), k) {
                (r matches Ok(m) && captured(vstd::utf8::decode_utf8(d), m@))
            } else {
                r == Err::<String, LaunchError>(LaunchError::NotFound)
            },
        },
{
    let manifest = extract_file(jar, "MANIFEST.MF")?;
    let ghost d = manifest@;
    let text = match utf8_text(manifest) {
        Some(t) => t,
        None => return Err(LaunchError::MalformedManifest),
    };
    proof {
        assert(vstd::utf8::decode_utf8(d) == text@);
    }
    match main_class_capture(text.as_str()) {
        Some(c) => Ok(c),
        None => Err(LaunchError::NotFound),
    }
}

/// One entry to unpack: a directory, or a file with its content.
#[derive(Clone, Debug)]
pub struct UnpackEntry {
    pub name: String,
    pub is_dir: bool,
    pub data: Vec<u8>,
}

/// Indices of the entries unpacking keeps: all outside the metadata directory.
pub open spec fn unpack_selection_spec(names: Seq<Seq<char>>, n: int) -> Seq<int>
    decreases n,
{
    if n <= 0 {
        Seq::empty()
    } else {
        unpack_selection_spec(names, n - 1) + if is_meta(names[n - 1]) {
            Seq::empty()
        } else {
            seq![n - 1]
        }
    }
}

/// The entry names ends with a slash: it is a directory.
pub open spec fn is_dir_name(name: Seq<char>) -> bool {
    name.len() > 0 && name.last() == '/'
}

/// `u` is what unpacking entry `i` of `archive` yields.
pub open spec fn unpacked(u: UnpackEntry, archive: Seq<u8>, names: Seq<Seq<char>>, i: int) -> bool {
    &&& u.name@ == names[i]
    &&& u.is_dir == is_dir_name(names[i])
    &&& (!u.is_dir ==> zip_entry_data(archive, i) == Some(u.data@))
}

/// Unpacking can proceed: the names can be read, and so can every kept file.
pub open spec fn unpack_ok(archive: Seq<u8>) -> bool {
    match names_of(archive) {
        Some(ns) => {
            let sel = unpack_selection_spec(ns, ns.len() as int);
            forall|k: int| 0 <= k < sel.len() && !is_dir_name(ns[sel[k]]) ==> (#[trigger] zip_entry_data(archive, sel[k])) is Some
        },
        None => false,
    }
}

proof fn lemma_unpack_prefix(ns: Seq<Seq<char>>, n: int, m: int)
    requires
        0 <= n <= m <= ns.len(),
    ensures
        unpack_selection_spec(ns, n).len() <= unpack_selection_spec(ns, m).len(),
        forall|k: int| 0 <= k < unpack_selection_spec(ns, n).len() ==> unpack_selection_spec(ns, m)[k] == (#[trigger] unpack_selection_spec(ns, n)[k]),
    decreases m - n,
{
    if n < m {
        lemma_unpack_prefix(ns, n, m - 1);
    }
}

/// The entries to unpack from an archive into a directory: every entry
/// outside the metadata directory, in order, files with their content.
/// Fails with malformed metadata exactly when [`unpack_ok`] does not hold.
pub fn unpack_entries(archive: &Vec<u8>) -> (r: Result<Vec<UnpackEntry>, LaunchError>)
    ensures
        r is Ok <==> unpack_ok(archive@),
        r matches Ok(v) ==> (names_of(archive@) matches Some(ns) && v@.len() == unpack_selection_spec(
            ns,
            ns.len() as int,
        ).len() && forall|k: int|
            0 <= k < v@.len() ==> unpacked(#[trigger] v@[k], archive@, ns, unpack_selection_spec(ns, ns.len() as int)[k])),
        r matches Err(e) ==> e == LaunchError::MalformedManifest,
{
    let names = match entry_names(archive) {
        Some(n) => n,
        None => return Err(LaunchError::MalformedManifest),
    };
    let ghost ns = string_views(names@);
    let ghost full = unpack_selection_spec(ns, ns.len() as int);
    let mut out: Vec<UnpackEntry> = Vec::new();
    let mut i: usize = 0;
    while i < names.len()
        invariant
            i <= names@.len(),
            ns == string_views(names@),
            full == unpack_selection_spec(ns, ns.len() as int),
            names_of(archive@) == Some(ns),
            out@.len() == unpack_selection_spec(ns, i as int).len(),
            forall|k: int| 0 <= k < out@.len() ==> unpacked(#[trigger] out@[k], archive@, ns, unpack_selection_spec(ns, i as int)[k]),
        decreases names@.len() - i,
    {
        let ghost prev = unpack_selection_spec(ns, i as int);
        proof {
            assert(ns[i as int] == names@[i as int]@);
        }
        if !is_meta_name(&names[i]) {
            let nc = chars_of(names[i].as_str());
            let is_dir = nc.len() > 0 && nc[nc.len() - 1] == '/';
            let data = if is_dir {
                Vec::new()
            } else {
                match entry_data(archive, i) {
                    Some(d) => d,
                    None => {
                        proof {
                            let k = prev.len() as int;
                            assert(unpack_selection_spec(ns, i as int + 1)[k] == i as int);
                            lemma_unpack_prefix(ns, i as int + 1, ns.len() as int);
                            assert(full[k] == i as int);
                            assert(!is_dir_name(ns[full[k]]));
                            assert(zip_entry_data(archive@, full[k]) is None);
                            assert(!unpack_ok(archive@));
                        }
                        return Err(LaunchError::MalformedManifest);
                    },
                }
            };
            out.push(UnpackEntry { name: names[i].clone(), is_dir, data });
        }
        proof {
            let cur = unpack_selection_spec(ns, i as int + 1);
            assert forall|k: int| 0 <= k < out@.len() implies unpacked(#[trigger] out@[k], archive@, ns, cur[k]) by {
                if k < prev.len() {
                    assert(cur[k] == prev[k]);
                }
            }
        }
        i += 1;
    }
    proof {
        assert forall|k: int| 0 <= k < full.len() && !is_dir_name(ns[full[k]]) implies (#[trigger] zip_entry_data(archive@, full[k])) is Some by {
            assert(unpacked(out@[k], archive@, ns, full[k]));
        }
    }
    Ok(out)
}

/// A jar with each patch merged over it in turn (metadata directories dropped);
/// nothing when a merge fails.
pub open spec fn patched_spec(jar: Seq<u8>, patches: Seq<Seq<u8>>) -> Option<Seq<u8>>
    decreases patches.len(),
{
    if patches.len() == 0 {
        Some(jar)
    } else {
        match patched_spec(jar, patches.drop_last()) {
            Some(j) => merge_result(patches.last(), j, true),
            None => None,
        }
    }
}

proof fn lemma_patched_none(jar: Seq<u8>, patches: Seq<Seq<u8>>, n: int)
    requires
        0 <= n <= patches.len(),
        patched_spec(jar, patches.take(n)) is None,
    ensures
        patched_spec(jar, patches) is None,
    decreases patches.len(),
{
    if n < patches.len() {
        assert(patches.drop_last().take(n) =~= patches.take(n));
        lemma_patched_none(jar, patches.drop_last(), n);
    } else {
        assert(patches.take(n) =~= patches);
    }
}

/// Merges each patch archive over the jar, in order, dropping metadata
/// directories. Fails with malformed metadata exactly when a merge does.
pub fn apply_patches(jar: Vec<u8>, patches: &Vec<Vec<u8>>) -> (r: Result<Vec<u8>, LaunchError>)
    ensures
        match r {
            Ok(b) => patched_spec(jar@, patches@.map_values(|p: Vec<u8>| p@)) == Some(b@),
            Err(e) => e == LaunchError::MalformedManifest && patched_spec(jar@, patches@.map_values(|p: Vec<u8>| p@)) is None,
        },
{
    let ghost ps = patches@.map_values(|p: Vec<u8>| p@);
    let mut cur = jar;
    let ghost j0 = cur@;
    let mut i: usize = 0;
    proof {
        assert(ps.take(0) =~= Seq::<Seq<u8>>::empty());
    }
    while i < patches.len()
        invariant
            i <= patches@.len(),
            ps == patches@.map_values(|p: Vec<u8>| p@),
            j0 == jar@,
            patched_spec(j0, ps.take(i as int)) == Some(cur@),
        decreases patches@.len() - i,
    {
        proof {
            assert(ps.take(i as int + 1).drop_last() =~= ps.take(i as int));
            assert(ps.take(i as int + 1).last() == patches@[i as int]@);
        }
        match merge_zips(&cur, &patches[i], true) {
            Ok(b) => {
                cur = b;
            },
            Err(e) => {
                proof {
                    lemma_patched_none(j0, ps, i as int + 1);
                }
                return Err(e);
            },
        }
        i += 1;
    }
    proof {
        assert(ps.take(patches@.len() as int) =~= ps);
    }
    Ok(cur)
}

} // verus!
