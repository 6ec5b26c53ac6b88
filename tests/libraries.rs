use atlas_launcher::descriptor::{compute_total_size, plan_assets, plan_version_files, AssetIndexRef, AssetObject, DownloadRef, LoggingRef, VersionDescriptor};
use atlas_launcher::error::LaunchError;
use atlas_launcher::libraries::{resolve_libraries, Artifact, ClassifiedArtifact, LibraryEntry, NativeEntry};
use atlas_launcher::processor::{installer_steps, ProcessorContext};
use atlas_launcher::rules::{Platform, Rule, RuleAction};
use atlas_launcher::templater::{build_classpath, client_jar_name, ArgumentTemplates};

fn artifact(path: &str, size: u64) -> Artifact {
    Artifact { url: format!("https://libraries.invalid/{path}"), sha1: format!("sha-{path}"), path: path.to_string(), size }
}

fn lib(name: &str, a: Option<Artifact>) -> LibraryEntry {
    LibraryEntry { name: name.to_string(), rules: None, artifact: a, natives: vec![], classifiers: vec![], url: None }
}

fn linux() -> Platform {
    Platform { os: "linux".to_string(), arch: "x86_64".to_string() }
}

fn libraries() -> Vec<LibraryEntry> {
    let mut mac_only = lib("ca.weblite:java-objc-bridge:1.1", Some(artifact("ca/weblite/bridge.jar", 5)));
    mac_only.rules = Some(vec![Rule { action: RuleAction::Allow, os_name: Some("osx".to_string()), os_arch: None }]);
    let mut natives = lib("org.lwjgl.lwjgl:lwjgl-platform:2.9.4", None);
    natives.natives = vec![NativeEntry { os: "linux".to_string(), classifier: "natives-linux-${arch}".to_string() }];
    natives.classifiers = vec![ClassifiedArtifact { classifier: "natives-linux-64".to_string(), artifact: artifact("org/lwjgl/natives-linux.jar", 7) }];
    let mut raw = lib("net.fabricmc:intermediary:1.20.1", None);
    raw.url = Some("https://maven.fabricmc.net/".to_string());
    vec![lib("com.mojang:brigadier:1.1.8", Some(artifact("com/mojang/brigadier/1.1.8/brigadier-1.1.8.jar", 3))), mac_only, natives, raw]
}

#[test]
fn modern_version_without_loader() {
    let plan = resolve_libraries(&libraries(), &linux(), &"64".to_string(), &"1.20.1".to_string(), &";".to_string(), false).unwrap();
    assert_eq!(
        plan.classpath,
        "${libraries_path}/com/mojang/brigadier/1.1.8/brigadier-1.1.8.jar;${libraries_path}/net/fabricmc/intermediary/1.20.1/intermediary-1.20.1.jar;"
    );
    let dests: Vec<&str> = plan.jobs.iter().map(|j| j.destination.as_str()).collect();
    assert_eq!(
        dests,
        vec!["libraries/com/mojang/brigadier/1.1.8/brigadier-1.1.8.jar", "natives/1.20.1", "libraries/net/fabricmc/intermediary/1.20.1/intermediary-1.20.1.jar"]
    );
    assert!(plan.jobs[1].extract);
    assert_eq!(plan.jobs[2].url, "https://maven.fabricmc.net/net/fabricmc/intermediary/1.20.1/intermediary-1.20.1.jar");
    assert_eq!(plan.jobs[2].checksum, "");

    let jar = format!("/mc/versions/{}", client_jar_name(&"1.20.1".to_string(), &"".to_string(), false));
    let cp = build_classpath(&jar, &plan.classpath, &None, &vec![], &"/mc/libraries".to_string(), ';');
    assert!(cp.contains("/mc/versions/1.20.1.jar"));
    assert!(cp.contains("/mc/libraries/com/mojang/brigadier/1.1.8/brigadier-1.1.8.jar"));
    let ctx = ProcessorContext {
        libraries_path: "/mc/libraries".to_string(),
        separator: '/',
        classpath_separator: ";".to_string(),
        minecraft_jar: jar.clone(),
        client_lzma: String::new(),
    };
    assert!(installer_steps(&None, &None, &ctx).unwrap().is_empty());
}

#[test]
fn skipping_natives_keeps_classpath() {
    let plan = resolve_libraries(&libraries(), &linux(), &"64".to_string(), &"1.20.1".to_string(), &";".to_string(), true).unwrap();
    assert_eq!(plan.jobs.len(), 1);
    assert!(plan.classpath.contains("intermediary-1.20.1.jar"));
}

#[test]
fn forge_artifact_without_url() {
    let mut a = artifact("net/minecraftforge/forge/1.12.2-14.23.5.2859/forge-1.12.2-14.23.5.2859.jar", 1);
    a.url = String::new();
    let plan = resolve_libraries(&vec![lib("net.minecraftforge:forge:1.12.2-14.23.5.2859", Some(a))], &linux(), &"64".to_string(), &"1.12.2".to_string(), &";".to_string(), false).unwrap();
    assert_eq!(plan.jobs[0].url, "https://maven.minecraftforge.net/net/minecraftforge/forge/1.12.2-14.23.5.2859/forge-1.12.2-14.23.5.2859-launcher.jar");
}

#[test]
fn library_without_path_is_malformed() {
    let r = resolve_libraries(&vec![lib("a:b:c", Some(artifact("", 1)))], &linux(), &"64".to_string(), &"1".to_string(), &";".to_string(), false);
    assert_eq!(r.err(), Some(LaunchError::MalformedManifest));
}

fn descriptor() -> VersionDescriptor {
    VersionDescriptor {
        id: "1.20.1".to_string(),
        type_: "release".to_string(),
        inherits_from: None,
        main_class: "net.minecraft.client.main.Main".to_string(),
        asset_index: Some(AssetIndexRef { id: "5".to_string(), url: "https://idx.invalid/5.json".to_string(), total_size: 100 }),
        client: Some(DownloadRef { url: "https://c.invalid/client.jar".to_string(), sha1: "abc".to_string(), size: 1000 }),
        logging: Some(LoggingRef { id: "client-1.12.xml".to_string(), url: "https://l.invalid/x.xml".to_string(), sha1: "def".to_string(), size: 10, argument: None }),
        libraries: libraries(),
        arguments: ArgumentTemplates::Legacy(String::new()),
        java_major: Some(17),
    }
}

#[test]
fn total_size_counts_included_files() {
    assert_eq!(compute_total_size(&descriptor(), &linux(), &"64".to_string()), 1000 + 100 + 10 + 3 + 7);
}

#[test]
fn version_files_use_the_unmarked_name() {
    let jobs = plan_version_files(&descriptor(), &"_1.5.2".to_string());
    let dests: Vec<&str> = jobs.iter().map(|j| j.destination.as_str()).collect();
    assert_eq!(dests, vec!["versions/1.5.2.jar", "assets/indexes/5.json", "assets/log_configs/client-1.12.xml"]);
}

#[test]
fn asset_objects() {
    let objs = vec![
        AssetObject { name: "sounds/a.ogg".to_string(), hash: "ab12cd".to_string(), custom_url: None },
        AssetObject { name: "icons/b.png".to_string(), hash: "ef34".to_string(), custom_url: Some("https://custom.invalid/b".to_string()) },
    ];
    let shared = plan_assets(&objs, &"5".to_string(), &"demo".to_string()).unwrap();
    assert_eq!(shared[0].fetch.url, "https://resources.download.minecraft.net/ab/ab12cd");
    assert_eq!(shared[0].fetch.destination, "assets/objects/ab/ab12cd");
    assert_eq!(shared[0].fetch.checksum, "ab12cd");
    assert_eq!(shared[0].copy_to, None);
    assert_eq!(shared[1].fetch.url, "https://custom.invalid/b");
    let legacy = plan_assets(&objs, &"legacy".to_string(), &"demo".to_string()).unwrap();
    assert_eq!(legacy[0].copy_to.as_deref(), Some("assets/virtual/legacy/sounds/a.ogg"));
    let old = plan_assets(&objs, &"pre-1.6".to_string(), &"demo".to_string()).unwrap();
    assert_eq!(old[1].copy_to.as_deref(), Some("instances/demo/resources/icons/b.png"));
    let bad = vec![AssetObject { name: "x".to_string(), hash: "a".to_string(), custom_url: None }];
    assert_eq!(plan_assets(&bad, &"5".to_string(), &"demo".to_string()).err(), Some(LaunchError::MalformedManifest));
}
