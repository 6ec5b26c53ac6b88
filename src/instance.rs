//! Instance settings: their defaults, and what an edit changes.

use vstd::prelude::*;
use crate::text::{chars_of, string_of, occurs_at, starts_with};

verus! {

/// The stored settings of an instance.
#[derive(Clone, Debug)]
pub struct InstanceInfo {
    pub name: String,
    pub version: String,
    pub background: String,
    pub icon: String,
    pub version_type: String,
    pub width: String,
    pub height: String,
    /// Empty, or `<family>-<version>`.
    pub modloader: String,
    pub fullscreen: bool,
}

/// A fresh instance: default background and icon, 1920x1080, windowed.
pub fn new_instance(name: &String, version: &String, version_type: &String, modloader: &String) -> (r: InstanceInfo)
    ensures
        r.name@ == name@,
        r.version@ == version@,
        r.version_type@ == version_type@,
        r.modloader@ == modloader@,
        r.background@ == "default0"@,
        r.icon@ == "default0"@,
        r.width@ == "1920"@,
        r.height@ == "1080"@,
        !r.fullscreen,
{
    InstanceInfo {
        name: name.clone(),
        version: version.clone(),
        background: String::from_str("default0"),
        icon: String::from_str("default0"),
        version_type: version_type.clone(),
        width: String::from_str("1920"),
        height: String::from_str("1080"),
        modloader: modloader.clone(),
        fullscreen: false,
    }
}

/// The image names one of the bundled defaults.
pub open spec fn is_default(s: Seq<char>) -> bool {
    occurs_at(s, 0, "default"@)
}

/// Position after the last path separator of `s` (0 when there is none).
pub open spec fn name_start(s: Seq<char>) -> int
    decreases s.len(),
{
    if s.len() == 0 {
        0
    } else if s.last() == '/' || s.last() == '\\' {
        s.len() as int
    } else {
        name_start(s.drop_last())
    }
}

/// The last component of a path.
pub open spec fn file_name_spec(s: Seq<char>) -> Seq<char> {
    s.skip(name_start(s))
}

/// Position of the last `.` of `s`, if any.
pub open spec fn last_dot(s: Seq<char>) -> Option<int>
    decreases s.len(),
{
    if s.len() == 0 {
        None
    } else if s.last() == '.' {
        Some(s.len() - 1)
    } else {
        last_dot(s.drop_last())
    }
}

/// The extension of a file name: after its last `.`, unless that dot
/// starts the name; empty when there is none.
pub open spec fn extension_spec(name: Seq<char>) -> Seq<char> {
    match last_dot(name) {
        Some(p) => if p > 0 {
            name.skip(p + 1)
        } else {
            Seq::<char>::empty()
        },
        None => Seq::<char>::empty(),
    }
}

proof fn lemma_name_start(s: Seq<char>)
    ensures
        0 <= name_start(s) <= s.len(),
    decreases s.len(),
{
    if s.len() > 0 {
        lemma_name_start(s.drop_last());
    }
}

proof fn lemma_last_dot(s: Seq<char>)
    ensures
        last_dot(s) matches Some(p) ==> 0 <= p < s.len(),
    decreases s.len(),
{
    if s.len() > 0 {
        lemma_last_dot(s.drop_last());
    }
}

fn file_name(s: &Vec<char>) -> (r: Vec<char>)
    ensures
        r@ == file_name_spec(s@),
{
    let mut i: usize = s.len();
    proof {
        assert(s@.take(i as int) =~= s@);
    }
    while i > 0 && s[i - 1] != '/' && s[i - 1] != '\\'
        invariant
            i <= s@.len(),
            name_start(s@) == name_start(s@.take(i as int)),
        decreases i,
    {
        proof {
            assert(s@.take(i as int).drop_last() =~= s@.take(i - 1));
        }
        i -= 1;
    }
    proof {
        assert(name_start(s@.take(i as int)) == i);
    }
    let mut out: Vec<char> = Vec::new();
    let mut k: usize = i;
    while k < s.len()
        invariant
            i <= k <= s@.len(),
            out@ == s@.subrange(i as int, k as int),
        decreases s@.len() - k,
    {
        out.push(s[k]);
        proof {
            assert(s@.subrange(i as int, k as int + 1) =~= s@.subrange(i as int, k as int).push(s@[k as int]));
        }
        k += 1;
    }
    proof {
        assert(out@ =~= s@.skip(i as int));
    }
    out
}

fn extension(name: &Vec<char>) -> (r: Vec<char>)
    ensures
        r@ == extension_spec(name@),
{
    let mut i: usize = name.len();
    proof {
        assert(name@.take(i as int) =~= name@);
    }
    while i > 0 && name[i - 1] != '.'
        invariant
            i <= name@.len(),
            last_dot(name@) == last_dot(name@.take(i as int)),
        decreases i,
    {
        proof {
            assert(name@.take(i as int).drop_last() =~= name@.take(i - 1));
        }
        i -= 1;
    }
    if i <= 1 {
        proof {
            if i == 1 {
                assert(last_dot(name@.take(1)) == Some(0int));
            }
        }
        return Vec::new();
    }
    proof {
        assert(last_dot(name@.take(i as int)) == Some(i - 1));
    }
    let mut out: Vec<char> = Vec::new();
    let mut k: usize = i;
    while k < name.len()
        invariant
            i <= k <= name@.len(),
            out@ == name@.subrange(i as int, k as int),
        decreases name@.len() - k,
    {
        out.push(name[k]);
        proof {
            assert(name@.subrange(i as int, k as int + 1) =~= name@.subrange(i as int, k as int).push(name@[k as int]));
        }
        k += 1;
    }
    proof {
        assert(out@ =~= name@.skip(i as int));
    }
    out
}

/// What an edit does to one of the instance's images.
#[derive(Clone, Debug)]
pub enum ImageChange {
    /// Leave the stored image as it is.
    Keep,
    /// Copy `source` into the instance directory as `new_name`, after
    /// deleting the stored custom image `remove_old`, if any.
    Replace { source: String, new_name: String, remove_old: Option<String> },
    /// Go back to a bundled default, deleting the stored custom image, if any.
    Reset { remove_old: Option<String> },
}

/// The stored custom image a change deletes.
pub open spec fn removed(current: Seq<char>) -> Option<Seq<char>> {
    if is_default(current) {
        None
    } else {
        Some(current)
    }
}

/// The name a replacement image is stored under.
pub open spec fn stored_name(requested: Seq<char>, timestamp: Seq<char>, suffix: Seq<char>) -> Seq<char> {
    timestamp + suffix + "."@ + extension_spec(file_name_spec(requested))
}

/// The image after an edit: a custom image whose file name differs from
/// the stored one is stored under a fresh name; the same one is kept; a
/// default replaces any custom one.
pub open spec fn image_value(current: Seq<char>, requested: Seq<char>, timestamp: Seq<char>, suffix: Seq<char>) -> Seq<char> {
    if !is_default(requested) {
        if file_name_spec(requested) != current {
            stored_name(requested, timestamp, suffix)
        } else {
            current
        }
    } else {
        requested
    }
}

/// Whether `c` is the change [`image_value`] calls for.
pub open spec fn image_change_spec(c: ImageChange, current: Seq<char>, requested: Seq<char>, timestamp: Seq<char>, suffix: Seq<char>) -> bool {
    let rm = |o: Option<String>| match o {
        Some(s) => Some(s@),
        None => None,
    };
    if !is_default(requested) {
        if file_name_spec(requested) != current {
            c matches ImageChange::Replace { source, new_name, remove_old } && source@ == requested && new_name@
                == stored_name(requested, timestamp, suffix) && rm(remove_old) == removed(current)
        } else {
            c is Keep
        }
    } else {
        c matches ImageChange::Reset { remove_old } && rm(remove_old) == removed(current)
    }
}

fn removed_image(current: &String) -> (r: Option<String>)
    ensures
        match r {
            Some(s) => removed(current@) == Some(s@),
            None => removed(current@) is None,
        },
{
    if starts_with(&chars_of(current.as_str()), &chars_of("default")) {
        None
    } else {
        Some(current.clone())
    }
}

/// Decides what an edit does to one image; `suffix` tells images apart.
pub fn image_change(current: &String, requested: &String, timestamp: &String, suffix: &str) -> (r: (ImageChange, String))
    ensures
        image_change_spec(r.0, current@, requested@, timestamp@, suffix@),
        r.1@ == image_value(current@, requested@, timestamp@, suffix@),
{
    let req = chars_of(requested.as_str());
    if !starts_with(&req, &chars_of("default")) {
        let fname = file_name(&req);
        let fs = string_of(&fname);
        if fs != *current {
            let ext = string_of(&extension(&fname));
            let mut new_name = timestamp.clone();
            new_name.append(suffix);
            new_name.append(".");
            new_name.append(ext.as_str());
            let value = new_name.clone();
            (ImageChange::Replace { source: requested.clone(), new_name, remove_old: removed_image(current) }, value)
        } else {
            (ImageChange::Keep, current.clone())
        }
    } else {
        (ImageChange::Reset { remove_old: removed_image(current) }, requested.clone())
    }
}

/// What editing an instance does.
#[derive(Clone, Debug)]
pub struct InstanceEdit {
    /// The settings to store.
    pub updated: InstanceInfo,
    /// The instance directory moves to the new name.
    pub rename: bool,
    pub background: ImageChange,
    pub icon: ImageChange,
    /// The version changed: its files must be resolved again.
    pub redownload: bool,
}

/// Applies the edit `data` to the stored settings `current`: the new name,
/// the images (see [`image_value`]), the version and its type when the
/// version changes, the window settings; the loader stays.
pub fn edit_instance(current: &InstanceInfo, data: &InstanceInfo, timestamp: &String) -> (r: InstanceEdit)
    ensures
        r.rename == (current.name@ != data.name@),
        r.redownload == (current.version@ != data.version@),
        r.updated.name@ == data.name@,
        image_change_spec(r.background, current.background@, data.background@, timestamp@, "-background"@),
        r.updated.background@ == image_value(current.background@, data.background@, timestamp@, "-background"@),
        image_change_spec(r.icon, current.icon@, data.icon@, timestamp@, "-icon"@),
        r.updated.icon@ == image_value(current.icon@, data.icon@, timestamp@, "-icon"@),
        r.updated.version@ == data.version@,
        r.updated.version_type@ == if current.version@ != data.version@ {
            data.version_type@
        } else {
            current.version_type@
        },
        r.updated.width@ == data.width@,
        r.updated.height@ == data.height@,
        r.updated.fullscreen == data.fullscreen,
        r.updated.modloader@ == current.modloader@,
{
    let (background, bg) = image_change(&current.background, &data.background, timestamp, "-background");
    let (icon, ic) = image_change(&current.icon, &data.icon, timestamp, "-icon");
    let redownload = current.version != data.version;
    let updated = InstanceInfo {
        name: data.name.clone(),
        version: data.version.clone(),
        background: bg,
        icon: ic,
        version_type: if redownload {
            data.version_type.clone()
        } else {
            current.version_type.clone()
        },
        width: data.width.clone(),
        height: data.height.clone(),
        modloader: current.modloader.clone(),
        fullscreen: data.fullscreen,
    };
    InstanceEdit { updated, rename: current.name != data.name, background, icon, redownload }
}

} // verus!
