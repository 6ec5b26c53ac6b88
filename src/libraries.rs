//! Which library artifacts and natives a version needs, where each is
//! fetched from and stored, and the classpath fragment they form.

use vstd::prelude::*;
use crate::coordinate::{coordinate_path, coordinate_path_spec};
use crate::error::LaunchError;
use crate::rules::{Rule, Platform, rules_result, evaluate_rules};
use crate::text::{chars_of, string_of, replaced, replace_all, occurs_at, contains_seq, starts_with, contains};

verus! {

/// A downloadable file with its checksum and store-relative path.
#[derive(Clone, Debug)]
pub struct Artifact {
    pub url: String,
    pub sha1: String,
    pub path: String,
    pub size: u64,
}

/// The native classifier an entry uses on one operating system.
#[derive(Clone, Debug)]
pub struct NativeEntry {
    pub os: String,
    pub classifier: String,
}

/// An artifact published under a classifier.
#[derive(Clone, Debug)]
pub struct ClassifiedArtifact {
    pub classifier: String,
    pub artifact: Artifact,
}

/// One library of a version or loader descriptor.
#[derive(Clone, Debug)]
pub struct LibraryEntry {
    /// Maven-style coordinate.
    pub name: String,
    /// Rules gating the entry; included when absent.
    pub rules: Option<Vec<Rule>>,
    /// Embedded download metadata of the main artifact.
    pub artifact: Option<Artifact>,
    /// Native classifier per operating system.
    pub natives: Vec<NativeEntry>,
    /// Artifacts by classifier.
    pub classifiers: Vec<ClassifiedArtifact>,
    /// Raw repository base; the path then follows from the coordinate.
    pub url: Option<String>,
}

/// One file to fetch.
#[derive(Clone, Debug)]
pub struct FetchJob {
    pub url: String,
    pub checksum: String,
    /// Destination relative to the launcher root.
    pub destination: String,
    /// Unpack as an archive into the destination directory.
    pub extract: bool,
}

/// A fetch job as values.
pub struct JobView {
    pub url: Seq<char>,
    pub checksum: Seq<char>,
    pub destination: Seq<char>,
    pub extract: bool,
}

impl View for FetchJob {
    type V = JobView;

    open spec fn view(&self) -> JobView {
        JobView { url: self.url@, checksum: self.checksum@, destination: self.destination@, extract: self.extract }
    }
}

/// Views of a list of jobs.
pub open spec fn job_views(v: Seq<FetchJob>) -> Seq<JobView> {
    v.map_values(|j: FetchJob| j@)
}

/// The resolved libraries: the classpath fragment and the files to fetch.
#[derive(Clone, Debug)]
pub struct LibraryPlan {
    pub classpath: String,
    pub jobs: Vec<FetchJob>,
}

/// Where forge artifacts without a url are published.
pub open spec fn forge_maven_spec() -> Seq<char> {
    "https://maven.minecraftforge.net/"@
}

/// The entry is included on the platform (rules absent: included).
pub open spec fn included_spec(e: LibraryEntry, platform: Platform) -> bool {
    match e.rules {
        None => true,
        Some(r) => rules_result(r@, platform.os@, platform.arch@, true),
    }
}

/// The url of an artifact: its own, else for the forge artifact the
/// forge repository (universal jars as they are, others as their launcher jar).
pub open spec fn artifact_url_spec(a: Artifact) -> Option<Seq<char>> {
    if a.url@.len() > 0 {
        Some(a.url@)
    } else if occurs_at(a.path@, 0, "net/minecraftforge/forge"@) {
        if contains_seq(a.path@, "universal"@) {
            Some(forge_maven_spec() + a.path@)
        } else {
            Some(forge_maven_spec() + replaced(a.path@, ".jar"@, Seq::<char>::empty()) + "-launcher.jar"@)
        }
    } else {
        None
    }
}

/// The classifier of the first native entry for `os`.
pub open spec fn native_for(natives: Seq<NativeEntry>, os: Seq<char>) -> Option<Seq<char>>
    decreases natives.len(),
{
    if natives.len() == 0 {
        None
    } else {
        match native_for(natives.drop_last(), os) {
            Some(c) => Some(c),
            None => if natives.last().os@ == os {
                Some(natives.last().classifier@)
            } else {
                None
            },
        }
    }
}

/// The first artifact published under classifier `c`.
pub open spec fn classified_for(cl: Seq<ClassifiedArtifact>, c: Seq<char>) -> Option<Artifact>
    decreases cl.len(),
{
    if cl.len() == 0 {
        None
    } else {
        match classified_for(cl.drop_last(), c) {
            Some(a) => Some(a),
            None => if cl.last().classifier@ == c {
                Some(cl.last().artifact)
            } else {
                None
            },
        }
    }
}

/// A classpath token for a store-relative path.
pub open spec fn token_spec(path: Seq<char>, sep: Seq<char>) -> Seq<char> {
    "${libraries_path}/"@ + path + sep
}

/// What the entry's embedded artifact contributes.
pub open spec fn artifact_part(e: LibraryEntry, sep: Seq<char>) -> Result<(Seq<char>, Seq<JobView>), LaunchError> {
    match e.artifact {
        None => Ok((Seq::<char>::empty(), Seq::<JobView>::empty())),
        Some(a) => if a.path@.len() == 0 {
            Err(LaunchError::MalformedManifest)
        } else {
            match artifact_url_spec(a) {
                None => Err(LaunchError::MalformedManifest),
                Some(u) => Ok((
                    token_spec(a.path@, sep),
                    seq![JobView { url: u, checksum: a.sha1@, destination: "libraries/"@ + a.path@, extract: false }],
                )),
            }
        },
    }
}

/// What the entry's natives contribute: the artifact of the platform's
/// classifier (with `${arch}` filled in), unpacked into the version's natives directory.
pub open spec fn native_part(e: LibraryEntry, platform: Platform, bits: Seq<char>, version: Seq<char>, skip: bool) -> Seq<JobView> {
    if skip {
        Seq::<JobView>::empty()
    } else {
        match native_for(e.natives@, platform.os@) {
            None => Seq::<JobView>::empty(),
            Some(c) => match classified_for(e.classifiers@, replaced(c, "${arch}"@, bits)) {
                None => Seq::<JobView>::empty(),
                Some(n) => seq![JobView { url: n.url@, checksum: n.sha1@, destination: "natives/"@ + version, extract: true }],
            },
        }
    }
}

/// What the entry's raw repository contributes: the path from the coordinate.
pub open spec fn raw_part(e: LibraryEntry, sep: Seq<char>, skip: bool) -> Result<(Seq<char>, Seq<JobView>), LaunchError> {
    match e.url {
        None => Ok((Seq::<char>::empty(), Seq::<JobView>::empty())),
        Some(base) => match coordinate_path_spec(e.name@, '/') {
            None => Err(LaunchError::MalformedManifest),
            Some(p) => Ok((
                token_spec(p, sep),
                if skip {
                    Seq::<JobView>::empty()
                } else {
                    seq![JobView { url: base@ + p, checksum: Seq::<char>::empty(), destination: "libraries/"@ + p, extract: false }]
                },
            )),
        },
    }
}

/// What one entry contributes.
pub open spec fn entry_spec(e: LibraryEntry, platform: Platform, bits: Seq<char>, version: Seq<char>, sep: Seq<char>, skip: bool) -> Result<(Seq<char>, Seq<JobView>), LaunchError> {
    if !included_spec(e, platform) {
        Ok((Seq::<char>::empty(), Seq::<JobView>::empty()))
    } else {
        match (artifact_part(e, sep), raw_part(e, sep, skip)) {
            (Err(x), _) => Err(x),
            (_, Err(x)) => Err(x),
            (Ok(a), Ok(r)) => Ok((a.0 + r.0, a.1 + native_part(e, platform, bits, version, skip) + r.1)),
        }
    }
}

/// What a list of entries contributes, in order; the first failing entry's error otherwise.
pub open spec fn plan_spec(libs: Seq<LibraryEntry>, platform: Platform, bits: Seq<char>, version: Seq<char>, sep: Seq<char>, skip: bool) -> Result<(Seq<char>, Seq<JobView>), LaunchError>
    decreases libs.len(),
{
    if libs.len() == 0 {
        Ok((Seq::<char>::empty(), Seq::<JobView>::empty()))
    } else {
        match plan_spec(libs.drop_last(), platform, bits, version, sep, skip) {
            Err(x) => Err(x),
            Ok(p) => match entry_spec(libs.last(), platform, bits, version, sep, skip) {
                Err(x) => Err(x),
                Ok(q) => Ok((p.0 + q.0, p.1 + q.1)),
            },
        }
    }
}

proof fn lemma_plan_err_prefix(libs: Seq<LibraryEntry>, n: int, platform: Platform, bits: Seq<char>, version: Seq<char>, sep: Seq<char>, skip: bool)
    requires
        0 <= n <= libs.len(),
        plan_spec(libs.take(n), platform, bits, version, sep, skip) is Err,
    ensures
        plan_spec(libs, platform, bits, version, sep, skip) == plan_spec(libs.take(n), platform, bits, version, sep, skip),
    decreases libs.len(),
{
    if n < libs.len() {
        assert(libs.drop_last().take(n) =~= libs.take(n));
        lemma_plan_err_prefix(libs.drop_last(), n, platform, bits, version, sep, skip);
    } else {
        assert(libs.take(n) =~= libs);
    }
}

pub(crate) fn native_lookup(natives: &Vec<NativeEntry>, os: &String) -> (r: Option<String>)
    ensures
        match r {
            Some(c) => native_for(natives@, os@) == Some(c@),
            None => native_for(natives@, os@) is None,
        },
{
    let mut i: usize = 0;
    while i < natives.len()
        invariant
            i <= natives@.len(),
            native_for(natives@.take(i as int), os@) is None,
        decreases natives@.len() - i,
    {
        proof {
            assert(natives@.take(i as int + 1).drop_last() =~= natives@.take(i as int));
        }
        if natives[i].os == *os {
            proof {
                lemma_native_prefix(natives@, i as int + 1, os@);
            }
            return Some(natives[i].classifier.clone());
        }
        i += 1;
    }
    proof {
        assert(natives@.take(natives@.len() as int) =~= natives@);
    }
    None
}

proof fn lemma_native_prefix(s: Seq<NativeEntry>, n: int, os: Seq<char>)
    requires
        0 <= n <= s.len(),
        native_for(s.take(n), os) is Some,
    ensures
        native_for(s, os) == native_for(s.take(n), os),
    decreases s.len(),
{
    if n < s.len() {
        assert(s.drop_last().take(n) =~= s.take(n));
        lemma_native_prefix(s.drop_last(), n, os);
    } else {
        assert(s.take(n) =~= s);
    }
}

pub(crate) fn classified_lookup(cl: &Vec<ClassifiedArtifact>, c: &String) -> (r: Option<usize>)
    ensures
        match r {
            Some(i) => i < cl@.len() && classified_for(cl@, c@) == Some(cl@[i as int].artifact),
            None => classified_for(cl@, c@) is None,
        },
{
    let mut i: usize = 0;
    while i < cl.len()
        invariant
            i <= cl@.len(),
            classified_for(cl@.take(i as int), c@) is None,
        decreases cl@.len() - i,
    {
        proof {
            assert(cl@.take(i as int + 1).drop_last() =~= cl@.take(i as int));
        }
        if cl[i].classifier == *c {
            proof {
                lemma_classified_prefix(cl@, i as int + 1, c@);
            }
            return Some(i);
        }
        i += 1;
    }
    proof {
        assert(cl@.take(cl@.len() as int) =~= cl@);
    }
    None
}

proof fn lemma_classified_prefix(s: Seq<ClassifiedArtifact>, n: int, c: Seq<char>)
    requires
        0 <= n <= s.len(),
        classified_for(s.take(n), c) is Some,
    ensures
        classified_for(s, c) == classified_for(s.take(n), c),
    decreases s.len(),
{
    if n < s.len() {
        assert(s.drop_last().take(n) =~= s.take(n));
        lemma_classified_prefix(s.drop_last(), n, c);
    } else {
        assert(s.take(n) =~= s);
    }
}

fn artifact_url(a: &Artifact) -> (r: Option<String>)
    ensures
        match r {
            Some(u) => artifact_url_spec(*a) == Some(u@),
            None => artifact_url_spec(*a) is None,
        },
{
    if a.url.unicode_len() > 0 {
        return Some(a.url.clone());
    }
    let path = chars_of(a.path.as_str());
    if starts_with(&path, &chars_of("net/minecraftforge/forge")) {
        let mut u = String::from_str("https://maven.minecraftforge.net/");
        if contains(&path, &chars_of("universal")) {
            u.append(a.path.as_str());
        } else {
            let stem = string_of(&replace_all(&path, &chars_of(".jar"), &Vec::new()));
            u.append(stem.as_str());
            u.append("-launcher.jar");
        }
        Some(u)
    } else {
        None
    }
}

fn token(path: &String, sep: &String) -> (r: String)
    ensures
        r@ == token_spec(path@, sep@),
{
    let mut t = String::from_str("${libraries_path}/");
    t.append(path.as_str());
    t.append(sep.as_str());
    t
}

fn prefixed(prefix: &str, s: &String) -> (r: String)
    ensures
        r@ == prefix@ + s@,
{
    let mut t = String::from_str(prefix);
    t.append(s.as_str());
    t
}

fn entry_plan(
    e: &LibraryEntry,
    platform: &Platform,
    bits: &String,
    version: &String,
    sep: &String,
    skip: bool,
) -> (r: Result<(String, Vec<FetchJob>), LaunchError>)
    ensures
        match r {
            Ok((cp, jobs)) => entry_spec(*e, *platform, bits@, version@, sep@, skip) == Ok::<(Seq<char>, Seq<JobView>), LaunchError>((cp@, job_views(jobs@))),
            Err(x) => entry_spec(*e, *platform, bits@, version@, sep@, skip) == Err::<(Seq<char>, Seq<JobView>), LaunchError>(x),
        },
{
    let included = match &e.rules {
        None => true,
        Some(r) => evaluate_rules(r, platform, true),
    };
    if !included {
        proof {
            assert(job_views(Seq::<FetchJob>::empty()) =~= Seq::<JobView>::empty());
        }
        return Ok((String::new(), Vec::new()));
    }
    let mut cp = String::new();
    let mut jobs: Vec<FetchJob> = Vec::new();
    match &e.artifact {
        None => {},
        Some(a) => {
            if a.path.unicode_len() == 0 {
                return Err(LaunchError::MalformedManifest);
            }
            match artifact_url(a) {
                None => {
                    return Err(LaunchError::MalformedManifest);
                },
                Some(u) => {
                    cp = token(&a.path, sep);
                    jobs.push(FetchJob { url: u, checksum: a.sha1.clone(), destination: prefixed("libraries/", &a.path), extract: false });
                    proof {
                        assert(job_views(jobs@) =~= seq![jobs@[0]@]);
                    }
                },
            }
        },
    }
    let ghost after_artifact = job_views(jobs@);
    let ghost art_cp = cp@;
    proof {
        if e.artifact is None {
            assert(after_artifact =~= Seq::<JobView>::empty());
            assert(art_cp =~= Seq::<char>::empty());
        }
        assert(artifact_part(*e, sep@) == Ok::<(Seq<char>, Seq<JobView>), LaunchError>((art_cp, after_artifact)));
    }
    let mut raw_cp = String::new();
    let mut raw_jobs: Vec<FetchJob> = Vec::new();
    match &e.url {
        None => {},
        Some(base) => {
            let p = coordinate_path(e.name.as_str(), '/')?;
            raw_cp = token(&p, sep);
            if !skip {
                let mut u = base.clone();
                u.append(p.as_str());
                raw_jobs.push(FetchJob { url: u, checksum: String::new(), destination: prefixed("libraries/", &p), extract: false });
                proof {
                    assert(job_views(raw_jobs@) =~= seq![raw_jobs@[0]@]);
                }
            }
        },
    }
    if !skip {
        match native_lookup(&e.natives, &platform.os) {
            None => {},
            Some(c) => {
                let cc = chars_of(c.as_str());
                let wanted = string_of(&replace_all(&cc, &chars_of("${arch}"), &chars_of(bits.as_str())));
                match classified_lookup(&e.classifiers, &wanted) {
                    None => {},
                    Some(k) => {
                        let n = &e.classifiers[k].artifact;
                        jobs.push(FetchJob { url: n.url.clone(), checksum: n.sha1.clone(), destination: prefixed("natives/", version), extract: true });
                    },
                }
            },
        }
    }
    let ghost after_native = job_views(jobs@);
    let ghost rj = job_views(raw_jobs@);
    proof {
        if e.url is None || skip {
            assert(rj =~= Seq::<JobView>::empty());
        }
        if e.url is None {
            assert(raw_cp@ =~= Seq::<char>::empty());
        }
        assert(raw_part(*e, sep@, skip) == Ok::<(Seq<char>, Seq<JobView>), LaunchError>((raw_cp@, rj)));
    }
    cp.append(raw_cp.as_str());
    jobs.append(&mut raw_jobs);
    proof {
        assert(job_views(jobs@) =~= after_native + rj);
        assert(after_native =~= after_artifact + native_part(*e, *platform, bits@, version@, skip));
        assert(job_views(jobs@) =~= after_artifact + native_part(*e, *platform, bits@, version@, skip) + rj);
    }
    Ok((cp, jobs))
}

/// Resolves a descriptor's libraries on `platform`: skips rule-excluded
/// entries, and for the others lists the fetches (artifact, platform
/// native, raw-repository file) and builds the classpath fragment of
/// `${libraries_path}/<path><sep>` tokens. With `skip` set, natives and
/// raw-repository files are not fetched (their classpath tokens remain).
/// Fails with malformed metadata on an included entry whose artifact has no
/// path or no url, or whose raw-repository coordinate names no path.
pub fn resolve_libraries(
    libs: &Vec<LibraryEntry>,
    platform: &Platform,
    bits: &String,
    version: &String,
    sep: &String,
    skip: bool,
) -> (r: Result<LibraryPlan, LaunchError>)
    ensures
        match r {
            Ok(p) => plan_spec(libs@, *platform, bits@, version@, sep@, skip) == Ok::<(Seq<char>, Seq<JobView>), LaunchError>((p.classpath@, job_views(p.jobs@))),
            Err(x) => plan_spec(libs@, *platform, bits@, version@, sep@, skip) == Err::<(Seq<char>, Seq<JobView>), LaunchError>(x),
        },
{
    let mut cp = String::new();
    let mut jobs: Vec<FetchJob> = Vec::new();
    let mut i: usize = 0;
    proof {
        assert(job_views(jobs@) =~= Seq::<JobView>::empty());
    }
    while i < libs.len()
        invariant
            i <= libs@.len(),
            plan_spec(libs@.take(i as int), *platform, bits@, version@, sep@, skip) == Ok::<(Seq<char>, Seq<JobView>), LaunchError>((cp@, job_views(jobs@))),
        decreases libs@.len() - i,
    {
        proof {
            assert(libs@.take(i as int + 1).drop_last() =~= libs@.take(i as int));
        }
        match entry_plan(&libs[i], platform, bits, version, sep, skip) {
            Ok((c, js)) => {
                let ghost before = job_views(jobs@);
                let mut more = js;
                let ghost mv = job_views(more@);
                cp.append(c.as_str());
                jobs.append(&mut more);
                proof {
                    assert(job_views(jobs@) =~= before + mv);
                }
            },
            Err(x) => {
                proof {
                    lemma_plan_err_prefix(libs@, i as int + 1, *platform, bits@, version@, sep@, skip);
                }
                return Err(x);
            },
        }
        i += 1;
    }
    proof {
        assert(libs@.take(libs@.len() as int) =~= libs@);
    }
    Ok(LibraryPlan { classpath: cp, jobs })
}

/// Every included entry whose artifact has a path and a url puts that
/// path, as a `${libraries_path}/` token, on the resolved classpath fragment.
pub proof fn lemma_included_artifact_on_classpath(
    libs: Seq<LibraryEntry>,
    platform: Platform,
    bits: Seq<char>,
    version: Seq<char>,
    sep: Seq<char>,
    skip: bool,
    i: int,
)
    requires
        0 <= i < libs.len(),
        included_spec(libs[i], platform),
        libs[i].artifact matches Some(a) && a.path@.len() > 0 && artifact_url_spec(a) is Some,
        plan_spec(libs, platform, bits, version, sep, skip) is Ok,
    ensures
        contains_seq(
            plan_spec(libs, platform, bits, version, sep, skip)->Ok_0.0,
            token_spec(libs[i].artifact->Some_0.path@, sep),
        ),
    decreases libs.len(),
{
    let prev = plan_spec(libs.drop_last(), platform, bits, version, sep, skip);
    let whole = plan_spec(libs, platform, bits, version, sep, skip)->Ok_0.0;
    let t = token_spec(libs[i].artifact->Some_0.path@, sep);
    if i == libs.len() - 1 {
        let p0 = prev->Ok_0.0;
        let q = entry_spec(libs.last(), platform, bits, version, sep, skip)->Ok_0.0;
        assert(q.subrange(0, t.len() as int) =~= t);
        assert(whole.subrange(p0.len() as int, (p0.len() + t.len()) as int) =~= t);
        assert(occurs_at(whole, p0.len() as int, t));
    } else {
        assert(libs.drop_last()[i] == libs[i]);
        lemma_included_artifact_on_classpath(libs.drop_last(), platform, bits, version, sep, skip, i);
        let p0 = prev->Ok_0.0;
        let k = choose|k: int| occurs_at(p0, k, t);
        assert(whole.subrange(k, k + t.len()) =~= p0.subrange(k, k + t.len()));
        assert(occurs_at(whole, k, t));
    }
}

} // verus!
