//! Loader selection, where each loader family's metadata lives, and the
//! merged list of legacy-installer versions.

use vstd::prelude::*;
use crate::error::LaunchError;
use crate::text::{chars_of, string_of, replaced, replace_all, occurs_at, starts_with, contains, contains_seq};
use crate::templater::string_views;

verus! {

/// The three supported loader families.
#[derive(Clone, Copy, Debug, PartialEq, Eq, Structural)]
pub enum LoaderFamily {
    /// The legacy-installer family, with install profiles and processors.
    Forge,
    Fabric,
    Quilt,
}

/// A selected loader: its family and version.
#[derive(Clone, Debug)]
pub struct Loader {
    pub family: LoaderFamily,
    pub version: String,
}

/// The family a selector prefix names.
pub open spec fn family_prefix(f: LoaderFamily) -> Seq<char> {
    match f {
        LoaderFamily::Forge => "forge-"@,
        LoaderFamily::Fabric => "fabric-"@,
        LoaderFamily::Quilt => "quilt-"@,
    }
}

/// What a selector stands for: nothing when empty, a family and version
/// when it is `<family>-<version>`, malformed otherwise.
pub open spec fn selector_spec(s: Seq<char>) -> Result<Option<(LoaderFamily, Seq<char>)>, LaunchError> {
    if s.len() == 0 {
        Ok(None)
    } else if occurs_at(s, 0, "forge-"@) {
        Ok(Some((LoaderFamily::Forge, s.skip(6))))
    } else if occurs_at(s, 0, "fabric-"@) {
        Ok(Some((LoaderFamily::Fabric, s.skip(7))))
    } else if occurs_at(s, 0, "quilt-"@) {
        Ok(Some((LoaderFamily::Quilt, s.skip(6))))
    } else {
        Err(LaunchError::MalformedManifest)
    }
}

fn rest_after(s: &String, n: usize) -> (r: String)
    requires
        n <= s@.len(),
    ensures
        r@ == s@.skip(n as int),
{
    let total = s.unicode_len();
    proof {
        assert(s@.subrange(n as int, total as int) =~= s@.skip(n as int));
    }
    String::from_str(s.as_str().substring_char(n, total))
}

/// Reads an instance's loader selector.
pub fn parse_loader(selector: &String) -> (r: Result<Option<Loader>, LaunchError>)
    ensures
        match (r, selector_spec(selector@)) {
            (Ok(None), Ok(None)) => true,
            (Ok(Some(l)), Ok(Some((f, v)))) => l.family == f && l.version@ == v,
            (Err(a), Err(b)) => a == b,
            _ => false,
        },
{
    let cs = chars_of(selector.as_str());
    proof {
        reveal_strlit("forge-");
        reveal_strlit("fabric-");
        reveal_strlit("quilt-");
    }
    if cs.len() == 0 {
        Ok(None)
    } else if starts_with(&cs, &chars_of("forge-")) {
        Ok(Some(Loader { family: LoaderFamily::Forge, version: rest_after(selector, 6) }))
    } else if starts_with(&cs, &chars_of("fabric-")) {
        Ok(Some(Loader { family: LoaderFamily::Fabric, version: rest_after(selector, 7) }))
    } else if starts_with(&cs, &chars_of("quilt-")) {
        Ok(Some(Loader { family: LoaderFamily::Quilt, version: rest_after(selector, 6) }))
    } else {
        Err(LaunchError::MalformedManifest)
    }
}

/// Where a loader's descriptor is cached, relative to the launcher root,
/// for game version `game`.
pub open spec fn descriptor_cache_spec(l: Loader, game: Seq<char>) -> Seq<char> {
    match l.family {
        LoaderFamily::Forge => "launcher/meta/net.minecraftforge/"@ + l.version@ + ".json"@,
        LoaderFamily::Fabric => "launcher/meta/net.fabricmc/"@ + l.version@ + "-"@ + game + ".json"@,
        LoaderFamily::Quilt => "launcher/meta/org.quiltmc/"@ + l.version@ + "-"@ + game + ".json"@,
    }
}

fn concat(parts: &Vec<&str>) -> (r: String)
    ensures
        r@ == parts@.fold_left(Seq::<char>::empty(), |acc: Seq<char>, p: &str| acc + p@),
{
    let mut out = String::new();
    let mut i: usize = 0;
    while i < parts.len()
        invariant
            i <= parts@.len(),
            out@ == parts@.take(i as int).fold_left(Seq::<char>::empty(), |acc: Seq<char>, p: &str| acc + p@),
        decreases parts@.len() - i,
    {
        proof {
            assert(parts@.take(i as int + 1).drop_last() =~= parts@.take(i as int));
        }
        out.append(parts[i]);
        i += 1;
    }
    proof {
        assert(parts@.take(parts@.len() as int) =~= parts@);
    }
    out
}

/// The cache path of a loader's descriptor.
pub fn descriptor_cache_path(l: &Loader, game: &String) -> (r: String)
    ensures
        r@ == descriptor_cache_spec(*l, game@),
{
    let v = l.version.as_str();
    let parts = match l.family {
        LoaderFamily::Forge => vec!["launcher/meta/net.minecraftforge/", v, ".json"],
        LoaderFamily::Fabric => vec!["launcher/meta/net.fabricmc/", v, "-", game.as_str(), ".json"],
        LoaderFamily::Quilt => vec!["launcher/meta/org.quiltmc/", v, "-", game.as_str(), ".json"],
    };
    let r = concat(&parts);
    proof {
        reveal_with_fuel(Seq::fold_left, 6);
        assert(r@ =~= descriptor_cache_spec(*l, game@));
    }
    r
}

/// Where a loader's descriptor is published, for game version `game`:
/// the profile endpoints of the two lightweight families, the launcher's
/// resource repository for the legacy-installer family.
pub open spec fn descriptor_url_spec(l: Loader, game: Seq<char>) -> Seq<char> {
    match l.family {
        LoaderFamily::Forge => "https://github.com/J0R6IT0/AtlasLauncherResources/raw/main/meta/net.minecraftforge/"@
            + l.version@ + ".json"@,
        LoaderFamily::Fabric => "https://meta.fabricmc.net/v2/versions/loader/"@ + game + "/"@ + l.version@
            + "/profile/json"@,
        LoaderFamily::Quilt => "https://meta.quiltmc.org/v3/versions/loader/"@ + game + "/"@ + l.version@
            + "/profile/json"@,
    }
}

/// The address of a loader's descriptor.
pub fn descriptor_url(l: &Loader, game: &String) -> (r: String)
    ensures
        r@ == descriptor_url_spec(*l, game@),
{
    let v = l.version.as_str();
    let parts = match l.family {
        LoaderFamily::Forge => vec!["https://github.com/J0R6IT0/AtlasLauncherResources/raw/main/meta/net.minecraftforge/", v, ".json"],
        LoaderFamily::Fabric => vec!["https://meta.fabricmc.net/v2/versions/loader/", game.as_str(), "/", v, "/profile/json"],
        LoaderFamily::Quilt => vec!["https://meta.quiltmc.org/v3/versions/loader/", game.as_str(), "/", v, "/profile/json"],
    };
    let r = concat(&parts);
    proof {
        reveal_with_fuel(Seq::fold_left, 6);
        assert(r@ =~= descriptor_url_spec(*l, game@));
    }
    r
}

/// Files of a legacy-installer version: its installer's hashes, its
/// installer, its install profile and compressed client caches, its
/// processed client jar and its patched jar.
pub struct ForgeFiles {
    pub hashes_url: String,
    pub hashes_cache: String,
    pub installer_url: String,
    pub install_profile_cache: String,
    pub client_lzma_cache: String,
    pub client_jar: String,
    pub patched_jar: String,
}

/// The files of legacy-installer version `v`.
pub open spec fn forge_files_spec(f: ForgeFiles, v: Seq<char>) -> bool {
    &&& f.hashes_url@ == "https://files.minecraftforge.net/net/minecraftforge/forge/"@ + v + "/meta.json"@
    &&& f.hashes_cache@ == "launcher/meta/net.minecraftforge/"@ + v + "-hashes.json"@
    &&& f.installer_url@ == "https://maven.minecraftforge.net/net/minecraftforge/forge/"@ + v + "/forge-"@ + v + "-installer.jar"@
    &&& f.install_profile_cache@ == "launcher/meta/net.minecraftforge/"@ + v + "-install.json"@
    &&& f.client_lzma_cache@ == "launcher/cache/"@ + v + "-client.lzma"@
    &&& f.client_jar@ == "libraries/net/minecraftforge/forge/"@ + v + "/forge-"@ + v + "-client.jar"@
    &&& f.patched_jar@ == "versions/forge-"@ + v + ".jar"@
}

/// Names the files of legacy-installer version `v`.
pub fn forge_files(v: &String) -> (r: ForgeFiles)
    ensures
        forge_files_spec(r, v@),
{
    let s = v.as_str();
    let f = ForgeFiles {
        hashes_url: concat(&vec!["https://files.minecraftforge.net/net/minecraftforge/forge/", s, "/meta.json"]),
        hashes_cache: concat(&vec!["launcher/meta/net.minecraftforge/", s, "-hashes.json"]),
        installer_url: concat(&vec!["https://maven.minecraftforge.net/net/minecraftforge/forge/", s, "/forge-", s, "-installer.jar"]),
        install_profile_cache: concat(&vec!["launcher/meta/net.minecraftforge/", s, "-install.json"]),
        client_lzma_cache: concat(&vec!["launcher/cache/", s, "-client.lzma"]),
        client_jar: concat(&vec!["libraries/net/minecraftforge/forge/", s, "/forge-", s, "-client.jar"]),
        patched_jar: concat(&vec!["versions/forge-", s, ".jar"]),
    };
    proof {
        reveal_with_fuel(Seq::fold_left, 6);
        assert(f.hashes_url@ =~= "https://files.minecraftforge.net/net/minecraftforge/forge/"@ + v@ + "/meta.json"@);
        assert(f.hashes_cache@ =~= "launcher/meta/net.minecraftforge/"@ + v@ + "-hashes.json"@);
        assert(f.installer_url@ =~= "https://maven.minecraftforge.net/net/minecraftforge/forge/"@ + v@ + "/forge-"@ + v@ + "-installer.jar"@);
        assert(f.install_profile_cache@ =~= "launcher/meta/net.minecraftforge/"@ + v@ + "-install.json"@);
        assert(f.client_lzma_cache@ =~= "launcher/cache/"@ + v@ + "-client.lzma"@);
        assert(f.client_jar@ =~= "libraries/net/minecraftforge/forge/"@ + v@ + "/forge-"@ + v@ + "-client.jar"@);
        assert(f.patched_jar@ =~= "versions/forge-"@ + v@ + ".jar"@);
    }
    f
}

/// The processors of a legacy-installer version run when its descriptor is
/// a forge one, its install profile is at hand, and the processed client
/// jar does not exist yet.
pub fn needs_processing(descriptor_id: &String, has_install_profile: bool, client_jar_exists: bool) -> (r: bool)
    ensures
        r == (contains_seq(descriptor_id@, "forge"@) && has_install_profile && !client_jar_exists),
{
    contains(&chars_of(descriptor_id.as_str()), &chars_of("forge")) && has_install_profile && !client_jar_exists
}

/// Where an extra file of a legacy-installer descriptor goes: its path with
/// the instance directory for `${game_directory}`.
pub fn extra_destination(path: &String, game_directory: &String) -> (r: String)
    ensures
        r@ == replaced(path@, "${game_directory}"@, game_directory@),
{
    string_of(&replace_all(&chars_of(path.as_str()), &chars_of("${game_directory}"), &chars_of(game_directory.as_str())))
}

/// The legacy-installer versions released for one game version.
#[derive(Clone, Debug)]
pub struct ForgeVersions {
    pub mc_id: String,
    pub versions: Vec<String>,
}

/// A version list as values.
pub open spec fn forge_view(f: ForgeVersions) -> (Seq<char>, Seq<Seq<char>>) {
    (f.mc_id@, string_views(f.versions@))
}

/// Views of version lists.
pub open spec fn forge_views(s: Seq<ForgeVersions>) -> Seq<(Seq<char>, Seq<Seq<char>>)> {
    s.map_values(|f: ForgeVersions| forge_view(f))
}

/// Index of the first list for game version `mc`.
pub open spec fn find_mc(s: Seq<(Seq<char>, Seq<Seq<char>>)>, mc: Seq<char>) -> Option<int>
    decreases s.len(),
{
    if s.len() == 0 {
        None
    } else {
        match find_mc(s.drop_last(), mc) {
            Some(i) => Some(i),
            None => if s.last().0 == mc {
                Some(s.len() - 1)
            } else {
                None
            },
        }
    }
}

proof fn lemma_find_mc(s: Seq<(Seq<char>, Seq<Seq<char>>)>, mc: Seq<char>, n: int)
    requires
        0 <= n <= s.len(),
    ensures
        find_mc(s.take(n), mc) is Some ==> find_mc(s, mc) == find_mc(s.take(n), mc),
        find_mc(s, mc) matches Some(i) ==> 0 <= i < s.len(),
    decreases s.len(),
{
    if s.len() > 0 {
        if n < s.len() {
            assert(s.drop_last().take(n) =~= s.take(n));
            lemma_find_mc(s.drop_last(), mc, n);
        } else {
            assert(s.take(n) =~= s);
            lemma_find_mc(s.drop_last(), mc, n - 1);
        }
    } else {
        assert(s.take(n) =~= s);
    }
}

/// One supplementary list applied: it replaces the versions of the first
/// list for its game version, or goes in front when there is none.
pub open spec fn apply_extra(s: Seq<(Seq<char>, Seq<Seq<char>>)>, x: (Seq<char>, Seq<Seq<char>>)) -> Seq<(Seq<char>, Seq<Seq<char>>)> {
    match find_mc(s, x.0) {
        Some(i) => s.update(i, (s[i].0, x.1)),
        None => seq![x] + s,
    }
}

/// The supplementary lists applied from the last to the first.
pub open spec fn merge_forge_spec(s: Seq<(Seq<char>, Seq<Seq<char>>)>, extra: Seq<(Seq<char>, Seq<Seq<char>>)>) -> Seq<(Seq<char>, Seq<Seq<char>>)>
    decreases extra.len(),
{
    if extra.len() == 0 {
        s
    } else {
        merge_forge_spec(apply_extra(s, extra.last()), extra.drop_last())
    }
}

fn copy_strings(v: &Vec<String>) -> (r: Vec<String>)
    ensures
        string_views(r@) == string_views(v@),
{
    let mut out: Vec<String> = Vec::new();
    let mut i: usize = 0;
    while i < v.len()
        invariant
            i <= v@.len(),
            string_views(out@) == string_views(v@.take(i as int)),
        decreases v@.len() - i,
    {
        let ghost before = out@;
        out.push(v[i].clone());
        proof {
            assert(string_views(out@) =~= string_views(before).push(v@[i as int]@));
            assert(string_views(v@.take(i as int + 1)) =~= string_views(v@.take(i as int)).push(v@[i as int]@));
        }
        i += 1;
    }
    proof {
        assert(v@.take(v@.len() as int) =~= v@);
    }
    out
}

fn position_of_mc(s: &Vec<ForgeVersions>, mc: &String) -> (r: Option<usize>)
    ensures
        match r {
            Some(i) => find_mc(forge_views(s@), mc@) == Some(i as int) && i < s@.len(),
            None => find_mc(forge_views(s@), mc@) is None,
        },
{
    let mut i: usize = 0;
    while i < s.len()
        invariant
            i <= s@.len(),
            find_mc(forge_views(s@.take(i as int)), mc@) is None,
        decreases s@.len() - i,
    {
        proof {
            assert(forge_views(s@.take(i as int + 1)).drop_last() =~= forge_views(s@.take(i as int)));
        }
        if s[i].mc_id == *mc {
            proof {
                assert(forge_views(s@).take(i as int + 1) =~= forge_views(s@.take(i as int + 1)));
                lemma_find_mc(forge_views(s@), mc@, i as int + 1);
            }
            return Some(i);
        }
        i += 1;
    }
    proof {
        assert(s@.take(s@.len() as int) =~= s@);
    }
    None
}

/// Merges supplementary version lists into the base lists, taking the
/// supplementary lists from the last to the first: each replaces the
/// versions for its game version, or is put in front when the base has none.
pub fn merge_forge_versions(base: Vec<ForgeVersions>, extra: &Vec<ForgeVersions>) -> (r: Vec<ForgeVersions>)
    ensures
        forge_views(r@) == merge_forge_spec(forge_views(base@), forge_views(extra@)),
{
    let mut cur = base;
    let mut k: usize = extra.len();
    proof {
        assert(extra@.take(k as int) =~= extra@);
    }
    while k > 0
        invariant
            k <= extra@.len(),
            merge_forge_spec(forge_views(cur@), forge_views(extra@.take(k as int))) == merge_forge_spec(
                forge_views(base@),
                forge_views(extra@),
            ),
        decreases k,
    {
        let x = &extra[k - 1];
        let ghost before = forge_views(cur@);
        proof {
            assert(forge_views(extra@.take(k as int)).drop_last() =~= forge_views(extra@.take(k - 1)));
            assert(forge_views(extra@.take(k as int)).last() == forge_view(*x));
        }
        match position_of_mc(&cur, &x.mc_id) {
            Some(i) => {
                let versions = copy_strings(&x.versions);
                let mc = cur[i].mc_id.clone();
                cur.set(i, ForgeVersions { mc_id: mc, versions });
                proof {
                    assert(forge_views(cur@) =~= before.update(i as int, (before[i as int].0, string_views(x.versions@))));
                }
            },
            None => {
                let entry = ForgeVersions { mc_id: x.mc_id.clone(), versions: copy_strings(&x.versions) };
                cur.insert(0, entry);
                proof {
                    assert(forge_views(cur@) =~= seq![forge_view(*x)] + before);
                }
            },
        }
        k -= 1;
    }
    proof {
        assert(forge_views(extra@.take(0)) =~= Seq::<(Seq<char>, Seq<Seq<char>>)>::empty());
    }
    cur
}

} // verus!
