//! A version descriptor and the downloads it calls for.

use vstd::prelude::*;
use crate::error::LaunchError;
use crate::libraries::{LibraryEntry, FetchJob, JobView, job_views, included_spec, native_for, classified_for};
use crate::manifest::{strip_marker, strip_marker_spec};
use crate::rules::{Platform, evaluate_rules};
use crate::templater::{ArgumentTemplates, AssetsLocation, assets_location, assets_location_spec};
use crate::text::{chars_of, string_of, replaced, replace_all};

verus! {

/// A file the descriptor references, with checksum and size.
#[derive(Clone, Debug)]
pub struct DownloadRef {
    pub url: String,
    pub sha1: String,
    pub size: u64,
}

/// The asset index a descriptor references.
#[derive(Clone, Debug)]
pub struct AssetIndexRef {
    pub id: String,
    pub url: String,
    pub total_size: u64,
}

/// The logging configuration a descriptor references.
#[derive(Clone, Debug)]
pub struct LoggingRef {
    pub id: String,
    pub url: String,
    pub sha1: String,
    pub size: u64,
    /// JVM argument template with a `${path}` placeholder.
    pub argument: Option<String>,
}

/// Metadata of one game version or loader variant.
#[derive(Clone, Debug)]
pub struct VersionDescriptor {
    pub id: String,
    pub type_: String,
    pub inherits_from: Option<String>,
    pub main_class: String,
    pub asset_index: Option<AssetIndexRef>,
    pub client: Option<DownloadRef>,
    pub logging: Option<LoggingRef>,
    pub libraries: Vec<LibraryEntry>,
    pub arguments: ArgumentTemplates,
    pub java_major: Option<u64>,
}

/// Sum that stops at the largest `u64`.
pub open spec fn sat_add(a: u64, b: u64) -> u64 {
    if a as int + b as int > u64::MAX as int {
        u64::MAX
    } else {
        (a + b) as u64
    }
}

fn add_sat(a: u64, b: u64) -> (r: u64)
    ensures
        r == sat_add(a, b),
{
    if a > u64::MAX - b {
        u64::MAX
    } else {
        a + b
    }
}

/// Bytes one library adds on the platform: its artifact and its platform
/// native (with `${arch}` filled in), when the entry is included.
pub open spec fn library_size(e: LibraryEntry, platform: Platform, bits: Seq<char>) -> u64 {
    if !included_spec(e, platform) {
        0
    } else {
        let a = match e.artifact {
            Some(x) => x.size,
            None => 0,
        };
        let n = match native_for(e.natives@, platform.os@) {
            Some(c) => match classified_for(e.classifiers@, replaced(c, "${arch}"@, bits)) {
                Some(x) => x.size,
                None => 0,
            },
            None => 0,
        };
        sat_add(a, n)
    }
}

/// Bytes the libraries add, in order.
pub open spec fn libraries_size(libs: Seq<LibraryEntry>, platform: Platform, bits: Seq<char>, start: u64) -> u64
    decreases libs.len(),
{
    if libs.len() == 0 {
        start
    } else {
        sat_add(libraries_size(libs.drop_last(), platform, bits, start), library_size(libs.last(), platform, bits))
    }
}

/// Bytes the descriptor's files add before its libraries.
pub open spec fn files_size(d: VersionDescriptor) -> u64 {
    sat_add(
        sat_add(
            match d.client {
                Some(c) => c.size,
                None => 0,
            },
            match d.asset_index {
                Some(a) => a.total_size,
                None => 0,
            },
        ),
        match d.logging {
            Some(l) => l.size,
            None => 0,
        },
    )
}

fn library_bytes(e: &LibraryEntry, platform: &Platform, bits: &String) -> (r: u64)
    ensures
        r == library_size(*e, *platform, bits@),
{
    let included = match &e.rules {
        None => true,
        Some(r) => evaluate_rules(r, platform, true),
    };
    if !included {
        return 0;
    }
    let a = match &e.artifact {
        Some(x) => x.size,
        None => 0,
    };
    let n = match crate::libraries::native_lookup(&e.natives, &platform.os) {
        Some(c) => {
            let wanted = string_of(&replace_all(&chars_of(c.as_str()), &chars_of("${arch}"), &chars_of(bits.as_str())));
            match crate::libraries::classified_lookup(&e.classifiers, &wanted) {
                Some(k) => e.classifiers[k].artifact.size,
                None => 0,
            }
        },
        None => 0,
    };
    add_sat(a, n)
}

/// Total bytes a version's downloads take on the platform (asset objects
/// counted through the index's total), stopping at the largest `u64`.
pub fn compute_total_size(d: &VersionDescriptor, platform: &Platform, bits: &String) -> (r: u64)
    ensures
        r == libraries_size(d.libraries@, *platform, bits@, files_size(*d)),
{
    let c = match &d.client {
        Some(c) => c.size,
        None => 0,
    };
    let a = match &d.asset_index {
        Some(a) => a.total_size,
        None => 0,
    };
    let l = match &d.logging {
        Some(l) => l.size,
        None => 0,
    };
    let mut total = add_sat(add_sat(c, a), l);
    let mut i: usize = 0;
    while i < d.libraries.len()
        invariant
            i <= d.libraries@.len(),
            total == libraries_size(d.libraries@.take(i as int), *platform, bits@, files_size(*d)),
        decreases d.libraries@.len() - i,
    {
        proof {
            assert(d.libraries@.take(i as int + 1).drop_last() =~= d.libraries@.take(i as int));
        }
        total = add_sat(total, library_bytes(&d.libraries[i], platform, bits));
        i += 1;
    }
    proof {
        assert(d.libraries@.take(d.libraries@.len() as int) =~= d.libraries@);
    }
    total
}

/// The client jar's fetch, stored under the version's name without marker.
pub open spec fn client_job_spec(d: VersionDescriptor, id: Seq<char>) -> Seq<JobView> {
    match d.client {
        Some(c) => seq![JobView { url: c.url@, checksum: c.sha1@, destination: "versions/"@ + strip_marker_spec(id) + ".jar"@, extract: false }],
        None => Seq::<JobView>::empty(),
    }
}

/// The asset index's fetch.
pub open spec fn index_job_spec(d: VersionDescriptor) -> Seq<JobView> {
    match d.asset_index {
        Some(a) => seq![JobView { url: a.url@, checksum: Seq::<char>::empty(), destination: "assets/indexes/"@ + a.id@ + ".json"@, extract: false }],
        None => Seq::<JobView>::empty(),
    }
}

/// The logging configuration's fetch.
pub open spec fn logging_job_spec(d: VersionDescriptor) -> Seq<JobView> {
    match d.logging {
        Some(l) => seq![JobView { url: l.url@, checksum: l.sha1@, destination: "assets/log_configs/"@ + l.id@, extract: false }],
        None => Seq::<JobView>::empty(),
    }
}

/// The version-level files of a descriptor: the client jar, the asset
/// index, the logging configuration; each present only when referenced.
pub open spec fn version_jobs_spec(d: VersionDescriptor, id: Seq<char>) -> Seq<JobView> {
    client_job_spec(d, id) + index_job_spec(d) + logging_job_spec(d)
}

fn join2(a: &str, b: &String) -> (r: String)
    ensures
        r@ == a@ + b@,
{
    let mut s = String::from_str(a);
    s.append(b.as_str());
    s
}

fn concat3(a: &str, b: &String, c: &str) -> (r: String)
    ensures
        r@ == a@ + b@ + c@,
{
    let mut s = String::from_str(a);
    s.append(b.as_str());
    s.append(c);
    s
}

/// Lists the version-level files of descriptor `d` for catalog id `id`.
pub fn plan_version_files(d: &VersionDescriptor, id: &String) -> (r: Vec<FetchJob>)
    ensures
        job_views(r@) == version_jobs_spec(*d, id@),
{
    let mut jobs: Vec<FetchJob> = Vec::new();
    let ghost j0 = job_views(jobs@);
    match &d.client {
        Some(c) => {
            let name = strip_marker(id);
            jobs.push(FetchJob { url: c.url.clone(), checksum: c.sha1.clone(), destination: concat3("versions/", &name, ".jar"), extract: false });
        },
        None => {},
    }
    let ghost j1 = job_views(jobs@);
    match &d.asset_index {
        Some(a) => {
            jobs.push(FetchJob { url: a.url.clone(), checksum: String::new(), destination: concat3("assets/indexes/", &a.id, ".json"), extract: false });
        },
        None => {},
    }
    let ghost j2 = job_views(jobs@);
    match &d.logging {
        Some(l) => {
            jobs.push(FetchJob { url: l.url.clone(), checksum: l.sha1.clone(), destination: join2("assets/log_configs/", &l.id), extract: false });
        },
        None => {},
    }
    proof {
        assert(j1 =~= client_job_spec(*d, id@));
        assert(j2 =~= client_job_spec(*d, id@) + index_job_spec(*d));
        assert(job_views(jobs@) =~= version_jobs_spec(*d, id@));
    }
    jobs
}

/// One object of an asset index.
#[derive(Clone, Debug)]
pub struct AssetObject {
    /// The object's virtual path.
    pub name: String,
    /// Its SHA-1 content hash.
    pub hash: String,
    /// A url that replaces the content-delivery address.
    pub custom_url: Option<String>,
}

/// Fetching one asset object, and where a legacy index also wants a copy.
#[derive(Clone, Debug)]
pub struct AssetJob {
    pub fetch: FetchJob,
    pub copy_to: Option<String>,
}

/// An asset job as values.
pub struct AssetJobView {
    pub fetch: JobView,
    pub copy_to: Option<Seq<char>>,
}

impl View for AssetJob {
    type V = AssetJobView;

    open spec fn view(&self) -> AssetJobView {
        AssetJobView {
            fetch: self.fetch@,
            copy_to: match self.copy_to {
                Some(c) => Some(c@),
                None => None,
            },
        }
    }
}

/// The content-delivery address of an object.
pub open spec fn object_url_spec(hash: Seq<char>) -> Seq<char> {
    "https://resources.download.minecraft.net/"@ + hash.take(2) + "/"@ + hash
}

/// The job for one object: fetch it by hash into the shared store (checked
/// against its hash) and, for pre-modern indexes, copy it under its virtual
/// path where those builds read assets. A hash shorter than two characters
/// is malformed.
pub open spec fn asset_job_spec(o: AssetObject, location: AssetsLocation, instance: Seq<char>) -> Result<AssetJobView, LaunchError> {
    if o.hash@.len() < 2 {
        Err(LaunchError::MalformedManifest)
    } else {
        Ok(AssetJobView {
            fetch: JobView {
                url: match o.custom_url {
                    Some(u) => u@,
                    None => object_url_spec(o.hash@),
                },
                checksum: o.hash@,
                destination: "assets/objects/"@ + o.hash@.take(2) + "/"@ + o.hash@,
                extract: false,
            },
            copy_to: match location {
                AssetsLocation::InstanceResources => Some("instances/"@ + instance + "/resources/"@ + o.name@),
                AssetsLocation::VirtualLegacy => Some("assets/virtual/legacy/"@ + o.name@),
                AssetsLocation::Shared => None,
            },
        })
    }
}

fn asset_job(o: &AssetObject, location: AssetsLocation, instance: &String) -> (r: Result<AssetJob, LaunchError>)
    ensures
        match r {
            Ok(j) => asset_job_spec(*o, location, instance@) == Ok::<AssetJobView, LaunchError>(j@),
            Err(e) => asset_job_spec(*o, location, instance@) == Err::<AssetJobView, LaunchError>(e),
        },
{
    let n = o.hash.unicode_len();
    if n < 2 {
        return Err(LaunchError::MalformedManifest);
    }
    let prefix = o.hash.as_str().substring_char(0, 2);
    let mut dir = String::from_str(prefix);
    dir.append("/");
    dir.append(o.hash.as_str());
    let url = match &o.custom_url {
        Some(u) => u.clone(),
        None => {
            let mut u = String::from_str("https://resources.download.minecraft.net/");
            u.append(dir.as_str());
            u
        },
    };
    let mut dest = String::from_str("assets/objects/");
    dest.append(dir.as_str());
    let copy_to = match location {
        AssetsLocation::InstanceResources => {
            let mut c = String::from_str("instances/");
            c.append(instance.as_str());
            c.append("/resources/");
            c.append(o.name.as_str());
            Some(c)
        },
        AssetsLocation::VirtualLegacy => Some(join2("assets/virtual/legacy/", &o.name)),
        AssetsLocation::Shared => None,
    };
    proof {
        assert(o.hash@.subrange(0, 2) =~= o.hash@.take(2));
        assert(url@ == match o.custom_url {
            Some(u) => u@,
            None => object_url_spec(o.hash@),
        }) by {
            if o.custom_url is None {
                assert(url@ =~= object_url_spec(o.hash@));
            }
        }
        assert(dest@ =~= "assets/objects/"@ + o.hash@.take(2) + "/"@ + o.hash@);
    }
    let j = AssetJob { fetch: FetchJob { url, checksum: o.hash.clone(), destination: dest, extract: false }, copy_to };
    proof {
        assert(j@.fetch == asset_job_spec(*o, location, instance@)->Ok_0.fetch);
    }
    Ok(j)
}

/// The jobs of an index's objects, in order, or the first object's error.
pub open spec fn assets_plan_spec(objs: Seq<AssetObject>, location: AssetsLocation, instance: Seq<char>) -> Result<Seq<AssetJobView>, LaunchError>
    decreases objs.len(),
{
    if objs.len() == 0 {
        Ok(Seq::<AssetJobView>::empty())
    } else {
        match assets_plan_spec(objs.drop_last(), location, instance) {
            Err(e) => Err(e),
            Ok(p) => match asset_job_spec(objs.last(), location, instance) {
                Err(e) => Err(e),
                Ok(j) => Ok(p.push(j)),
            },
        }
    }
}

proof fn lemma_assets_err_prefix(objs: Seq<AssetObject>, n: int, location: AssetsLocation, instance: Seq<char>)
    requires
        0 <= n <= objs.len(),
        assets_plan_spec(objs.take(n), location, instance) is Err,
    ensures
        assets_plan_spec(objs, location, instance) == assets_plan_spec(objs.take(n), location, instance),
    decreases objs.len(),
{
    if n < objs.len() {
        assert(objs.drop_last().take(n) =~= objs.take(n));
        lemma_assets_err_prefix(objs.drop_last(), n, location, instance);
    } else {
        assert(objs.take(n) =~= objs);
    }
}

/// Views of a list of asset jobs.
pub open spec fn asset_job_views(v: Seq<AssetJob>) -> Seq<AssetJobView> {
    v.map_values(|j: AssetJob| j@)
}

/// Plans the fetches of an asset index's objects for instance `instance`;
/// where copies go follows the index id (see [`assets_location`]).
pub fn plan_assets(objects: &Vec<AssetObject>, index_id: &String, instance: &String) -> (r: Result<Vec<AssetJob>, LaunchError>)
    ensures
        match r {
            Ok(v) => assets_plan_spec(objects@, assets_location_spec(index_id@), instance@) == Ok::<Seq<AssetJobView>, LaunchError>(asset_job_views(v@)),
            Err(e) => assets_plan_spec(objects@, assets_location_spec(index_id@), instance@) == Err::<Seq<AssetJobView>, LaunchError>(e),
        },
{
    let location = assets_location(index_id);
    let mut out: Vec<AssetJob> = Vec::new();
    let mut i: usize = 0;
    proof {
        assert(asset_job_views(out@) =~= Seq::<AssetJobView>::empty());
    }
    while i < objects.len()
        invariant
            i <= objects@.len(),
            location == assets_location_spec(index_id@),
            assets_plan_spec(objects@.take(i as int), location, instance@) == Ok::<Seq<AssetJobView>, LaunchError>(asset_job_views(out@)),
        decreases objects@.len() - i,
    {
        proof {
            assert(objects@.take(i as int + 1).drop_last() =~= objects@.take(i as int));
        }
        match asset_job(&objects[i], location, instance) {
            Ok(j) => {
                let ghost before = asset_job_views(out@);
                out.push(j);
                proof {
                    assert(asset_job_views(out@) =~= before.push(j@));
                }
            },
            Err(e) => {
                proof {
                    lemma_assets_err_prefix(objects@, i as int + 1, location, instance@);
                }
                return Err(e);
            },
        }
        i += 1;
    }
    proof {
        assert(objects@.take(objects@.len() as int) =~= objects@);
    }
    Ok(out)
}

} // verus!
