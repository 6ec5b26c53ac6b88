//! State the launcher keeps between requests: the version catalog and the
//! queue of instances waiting to be prepared.

use vstd::prelude::*;
use crate::manifest::{MinecraftVersion, entry_views};

verus! {

/// A catalog of game versions.
pub struct MinecraftVersionManifest {
    pub versions: Vec<MinecraftVersion>,
}

impl MinecraftVersion {
    /// A field-by-field copy.
    pub fn duplicate(&self) -> (r: MinecraftVersion)
        ensures
            r@ == self@,
    {
        MinecraftVersion {
            id: self.id.clone(),
            type_: self.type_.clone(),
            url: self.url.clone(),
            release_time: self.release_time.clone(),
            sha1: self.sha1.clone(),
        }
    }
}

/// Holds the current version catalog.
pub struct MetadataManager {
    pub minecraft_manifest: MinecraftVersionManifest,
}

impl MetadataManager {
    /// A manager holding `manifest`.
    pub fn new(manifest: MinecraftVersionManifest) -> (r: MetadataManager)
        ensures
            r.minecraft_manifest.versions@ == manifest.versions@,
    {
        MetadataManager { minecraft_manifest: manifest }
    }

    /// A copy of the catalog's versions.
    pub fn get_minecraft_versions(&self) -> (r: Vec<MinecraftVersion>)
        ensures
            entry_views(r@) == entry_views(self.minecraft_manifest.versions@),
    {
        let v = &self.minecraft_manifest.versions;
        let mut out: Vec<MinecraftVersion> = Vec::new();
        let mut i: usize = 0;
        while i < v.len()
            invariant
                i <= v@.len(),
                entry_views(out@) == entry_views(v@.take(i as int)),
            decreases v@.len() - i,
        {
            let ghost before = out@;
            out.push(v[i].duplicate());
            proof {
                assert(entry_views(out@) =~= entry_views(before).push(v@[i as int]@));
                assert(entry_views(v@.take(i as int + 1)) =~= entry_views(v@.take(i as int)).push(v@[i as int]@));
            }
            i += 1;
        }
        proof {
            assert(v@.take(v@.len() as int) =~= v@);
        }
        out
    }

    /// Replaces the catalog with a refreshed one.
    pub fn refresh_minecraft_manifest(&mut self, manifest: MinecraftVersionManifest)
        ensures
            final(self).minecraft_manifest.versions@ == manifest.versions@,
    {
        self.minecraft_manifest = manifest;
    }
}

/// An instance waiting to be prepared.
#[derive(Clone, Debug)]
pub struct DownloadTask {
    pub name: String,
    pub version: String,
}

/// Instances waiting to be prepared, first come first served.
pub struct InstanceManager {
    pub downloading: Vec<DownloadTask>,
}

impl InstanceManager {
    /// An empty queue.
    pub fn new() -> (r: InstanceManager)
        ensures
            r.downloading@.len() == 0,
    {
        InstanceManager { downloading: Vec::new() }
    }

    /// Queues instance `name` of `version`; true when the queue was empty,
    /// so that the caller starts working through it.
    pub fn create_instance(&mut self, name: &str, version: &str) -> (r: bool)
        ensures
            r == (old(self).downloading@.len() == 0),
            final(self).downloading@.len() == old(self).downloading@.len() + 1,
            final(self).downloading@.drop_last() == old(self).downloading@,
            final(self).downloading@.last().name@ == name@,
            final(self).downloading@.last().version@ == version@,
    {
        let was_empty = self.downloading.len() == 0;
        self.downloading.push(DownloadTask { name: String::from_str(name), version: String::from_str(version) });
        proof {
            assert(self.downloading@.drop_last() =~= old(self).downloading@);
        }
        was_empty
    }

    /// The task at the front of the queue.
    pub fn current_task(&self) -> (r: Option<&DownloadTask>)
        ensures
            self.downloading@.len() == 0 ==> r is None,
            self.downloading@.len() > 0 ==> r == Some(&self.downloading@[0]),
    {
        if self.downloading.len() == 0 {
            None
        } else {
            Some(&self.downloading[0])
        }
    }

    /// Drops the finished task at the front; true while tasks remain.
    pub fn finish_task(&mut self) -> (r: bool)
        ensures
            old(self).downloading@.len() == 0 ==> final(self).downloading@ == old(self).downloading@,
            old(self).downloading@.len() > 0 ==> final(self).downloading@ == old(self).downloading@.drop_first(),
            r == (final(self).downloading@.len() > 0),
    {
        if self.downloading.len() > 0 {
            self.downloading.remove(0);
            proof {
                assert(self.downloading@ =~= old(self).downloading@.drop_first());
            }
        }
        self.downloading.len() > 0
    }
}

} // verus!
