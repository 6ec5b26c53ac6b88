use atlas_launcher::instance::{edit_instance, image_change, new_instance, ImageChange, InstanceInfo};
use atlas_launcher::loader::{forge_files, merge_forge_versions, needs_processing, parse_loader, extra_destination, descriptor_cache_path, descriptor_url, ForgeVersions, Loader, LoaderFamily};
use atlas_launcher::error::LaunchError;
use atlas_launcher::events::{emit_event, progress_event, EventStatus};
use atlas_launcher::signin::build_url;
use atlas_launcher::managers::{InstanceManager, MetadataManager, MinecraftVersionManifest};
use atlas_launcher::manifest::MinecraftVersion;

#[test]
fn fresh_instance_defaults() {
    let i = new_instance(&"demo".to_string(), &"1.20.1".to_string(), &"release".to_string(), &"".to_string());
    assert_eq!(i.background, "default0");
    assert_eq!(i.icon, "default0");
    assert_eq!(i.width, "1920");
    assert_eq!(i.height, "1080");
    assert!(!i.fullscreen);
}

fn info(name: &str, version: &str, background: &str) -> InstanceInfo {
    let mut i = new_instance(&name.to_string(), &version.to_string(), &"release".to_string(), &"forge-1".to_string());
    i.background = background.to_string();
    i
}

#[test]
fn image_changes() {
    match image_change(&"default0".to_string(), &"/home/me/pics/sky.png".to_string(), &"1700000000".to_string(), "-background").0 {
        ImageChange::Replace { source, new_name, remove_old } => {
            assert_eq!(source, "/home/me/pics/sky.png");
            assert_eq!(new_name, "1700000000-background.png");
            assert_eq!(remove_old, None);
        }
        _ => panic!("expected a replacement"),
    }
    let (c, v) = image_change(&"sky.png".to_string(), &"/x/sky.png".to_string(), &"1".to_string(), "-icon");
    assert!(matches!(c, ImageChange::Keep));
    assert_eq!(v, "sky.png");
    let (c, v) = image_change(&"1-icon.png".to_string(), &"default3".to_string(), &"1".to_string(), "-icon");
    assert!(matches!(c, ImageChange::Reset { remove_old: Some(ref o) } if o == "1-icon.png"));
    assert_eq!(v, "default3");
    let (_, v) = image_change(&"default0".to_string(), &"C:\\pics\\noext".to_string(), &"7".to_string(), "-icon");
    assert_eq!(v, "7-icon.");
}

#[test]
fn editing_an_instance() {
    let current = info("demo", "1.20.1", "default0");
    let mut data = info("renamed", "1.19.4", "/p/bg.jpg");
    data.width = "800".to_string();
    data.modloader = "".to_string();
    data.version_type = "snapshot".to_string();
    let e = edit_instance(&current, &data, &"42".to_string());
    assert!(e.rename);
    assert!(e.redownload);
    assert_eq!(e.updated.name, "renamed");
    assert_eq!(e.updated.background, "42-background.jpg");
    assert_eq!(e.updated.width, "800");
    assert_eq!(e.updated.version_type, "snapshot");
    assert_eq!(e.updated.modloader, "forge-1");
}

#[test]
fn loader_selectors() {
    assert!(parse_loader(&"".to_string()).unwrap().is_none());
    let l = parse_loader(&"forge-1.20.1-47.1.0".to_string()).unwrap().unwrap();
    assert_eq!(l.family, LoaderFamily::Forge);
    assert_eq!(l.version, "1.20.1-47.1.0");
    let q = parse_loader(&"quilt-0.19.2".to_string()).unwrap().unwrap();
    assert_eq!(q.family, LoaderFamily::Quilt);
    assert_eq!(parse_loader(&"neo-1".to_string()).err(), Some(LaunchError::MalformedManifest));
}

#[test]
fn loader_locations() {
    let fabric = Loader { family: LoaderFamily::Fabric, version: "0.14.21".to_string() };
    assert_eq!(descriptor_cache_path(&fabric, &"1.20.1".to_string()), "launcher/meta/net.fabricmc/0.14.21-1.20.1.json");
    assert_eq!(descriptor_url(&fabric, &"1.20.1".to_string()), "https://meta.fabricmc.net/v2/versions/loader/1.20.1/0.14.21/profile/json");
    let f = forge_files(&"1.20.1-47.1.0".to_string());
    assert_eq!(f.installer_url, "https://maven.minecraftforge.net/net/minecraftforge/forge/1.20.1-47.1.0/forge-1.20.1-47.1.0-installer.jar");
    assert_eq!(f.client_lzma_cache, "launcher/cache/1.20.1-47.1.0-client.lzma");
    assert_eq!(f.patched_jar, "versions/forge-1.20.1-47.1.0.jar");
    assert!(needs_processing(&"1.20.1-forge-47.1.0".to_string(), true, false));
    assert!(!needs_processing(&"1.20.1-forge-47.1.0".to_string(), true, true));
    assert!(!needs_processing(&"1.5.2".to_string(), true, false));
    assert_eq!(extra_destination(&"${game_directory}/mods/x.jar".to_string(), &"/mc/instances/demo".to_string()), "/mc/instances/demo/mods/x.jar");
}

fn fv(mc: &str, versions: &[&str]) -> ForgeVersions {
    ForgeVersions { mc_id: mc.to_string(), versions: versions.iter().map(|s| s.to_string()).collect() }
}

#[test]
fn forge_version_lists_merge() {
    let base = vec![fv("1.20.1", &["47.1.0"]), fv("1.19.4", &["45.0.0"])];
    let extra = vec![fv("1.2.5", &["3.4.9"]), fv("1.19.4", &["45.1.0", "45.0.0"]), fv("1.1", &["1.0"])];
    let merged = merge_forge_versions(base, &extra);
    let ids: Vec<&str> = merged.iter().map(|f| f.mc_id.as_str()).collect();
    assert_eq!(ids, vec!["1.2.5", "1.1", "1.20.1", "1.19.4"]);
    assert_eq!(merged[3].versions, vec!["45.1.0", "45.0.0"]);
}

#[test]
fn events_and_sign_in() {
    let e = emit_event(EventStatus::Error, "Window closed");
    assert_eq!(e.base.message, "Window closed");
    assert_eq!(e.base.status.name(), "Error");
    let p = progress_event(&"demo".to_string(), EventStatus::Loading, "Downloading game files", 10, 0);
    assert_eq!(p.total, 10);
    assert_eq!(p.name, "demo");
    assert!(build_url().starts_with("https://login.microsoftonline.com/consumers/oauth2/v2.0/authorize?client_id=00000000402b5328&"));
    assert!(build_url().ends_with("&prompt=select_account"));
}

#[test]
fn managers() {
    let mut q = InstanceManager::new();
    assert!(q.create_instance("a", "1.20.1"));
    assert!(!q.create_instance("b", "1.19.4"));
    assert_eq!(q.current_task().unwrap().name, "a");
    assert!(q.finish_task());
    assert_eq!(q.current_task().unwrap().version, "1.19.4");
    assert!(!q.finish_task());
    let v = MinecraftVersion { id: "1.20.1".to_string(), type_: "release".to_string(), url: "u".to_string(), release_time: "t".to_string(), sha1: "s".to_string() };
    let mut m = MetadataManager::new(MinecraftVersionManifest { versions: vec![v] });
    assert_eq!(m.get_minecraft_versions()[0].id, "1.20.1");
    m.refresh_minecraft_manifest(MinecraftVersionManifest { versions: vec![] });
    assert!(m.get_minecraft_versions().is_empty());
}
