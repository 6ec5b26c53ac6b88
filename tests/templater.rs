use atlas_launcher::rules::{Platform, Rule, RuleAction};
use atlas_launcher::templater::{
    adjust_slashes, assemble_launch, assets_location, baseline_flags, build_classpath, client_jar_name,
    resolve_java_major, split_arguments, substitute, ArgumentEntry, ArgumentTemplates, AssetsLocation,
    LaunchContext, LoaderOverlay, LoggingArgument, Placeholder,
};

fn context() -> LaunchContext {
    LaunchContext {
        player_name: "Steve".to_string(),
        uuid: "uuid-1".to_string(),
        access_token: "token-1".to_string(),
        game_directory: "/mc/instances/demo".to_string(),
        game_assets: "/mc/assets".to_string(),
        assets_root: "/mc/assets".to_string(),
        version_name: "1.20.1".to_string(),
        version_type: "release".to_string(),
        asset_index: "5".to_string(),
        natives_directory: "/mc/natives/1.20.1".to_string(),
        libraries_path: "/mc/libraries".to_string(),
        classpath: "/mc/versions/1.20.1.jar;/mc/libraries/a.jar".to_string(),
        classpath_separator: ";".to_string(),
        width: "1920".to_string(),
        height: "1080".to_string(),
    }
}

fn linux() -> Platform {
    Platform { os: "linux".to_string(), arch: "x64".to_string() }
}

#[test]
fn legacy_arguments_split_on_blanks() {
    let r = split_arguments(&"  --username ${auth_player_name}\t--version  ${version_name} ".to_string());
    assert_eq!(r, vec!["--username", "${auth_player_name}", "--version", "${version_name}"]);
    assert!(split_arguments(&"   ".to_string()).is_empty());
}

#[test]
fn substitution_in_order() {
    let ph = vec![
        Placeholder { name: "${a}".to_string(), value: "${b}".to_string() },
        Placeholder { name: "${b}".to_string(), value: "x".to_string() },
    ];
    assert_eq!(substitute(&"${a}-${b}-${a}".to_string(), &ph), "x-x-x");
}

#[test]
fn slash_heuristic() {
    assert_eq!(adjust_slashes(&"-Dx=/a/b".to_string(), true), "-Dx=\\a\\b");
    assert_eq!(adjust_slashes(&"-XX:Flag=1/2".to_string(), true), "-XX:Flag=1/2");
    assert_eq!(adjust_slashes(&"/a/b".to_string(), false), "/a/b");
}

#[test]
fn java_major_and_flags() {
    assert_eq!(resolve_java_major(Some(17)), 17);
    assert_eq!(resolve_java_major(Some(16)), 17);
    assert_eq!(resolve_java_major(Some(21)), 8);
    assert_eq!(resolve_java_major(None), 8);
    assert_eq!(baseline_flags(17).len(), 42);
    let plain = baseline_flags(8);
    assert_eq!(plain.len(), 11);
    assert_eq!(plain[3], "-Xmx2G");
    assert_eq!(plain[10], "-XX:G1HeapRegionSize=32M");
}

#[test]
fn assets_locations() {
    assert_eq!(assets_location(&"pre-1.6".to_string()), AssetsLocation::InstanceResources);
    assert_eq!(assets_location(&"legacy".to_string()), AssetsLocation::VirtualLegacy);
    assert_eq!(assets_location(&"5".to_string()), AssetsLocation::Shared);
}

#[test]
fn classpath_assembly() {
    let cp = build_classpath(
        &"/mc/versions/forge-1.20.1.jar".to_string(),
        &"${libraries_path}/a/a.jar;${libraries_path}/b/b.jar;".to_string(),
        &Some("${libraries_path}/c/c.jar;".to_string()),
        &vec!["${libraries_path}/b/b.jar".to_string(), "/mc/libraries/c/c.jar".to_string()],
        &"/mc/libraries".to_string(),
        ';',
    );
    assert_eq!(cp, "/mc/versions/forge-1.20.1.jar;/mc/libraries/a/a.jar");
    let plain = build_classpath(
        &"/mc/versions/1.20.1.jar".to_string(),
        &"${libraries_path}/a/a.jar;".to_string(),
        &Some("${libraries_path}/c/c.jar;".to_string()),
        &vec!["a.jar".to_string(), "/mc/libraries/a".to_string()],
        &"/mc/libraries".to_string(),
        ';',
    );
    assert_eq!(plain, "/mc/versions/1.20.1.jar;/mc/libraries/a/a.jar;/mc/libraries/c/c.jar");
}

#[test]
fn loader_jar_replaces_client_jar() {
    let vanilla = client_jar_name(&"1.20.1".to_string(), &"".to_string(), false);
    let forge = client_jar_name(&"1.20.1".to_string(), &"forge-1.20.1-47.1.0".to_string(), true);
    assert_eq!(vanilla, "1.20.1.jar");
    assert_eq!(forge, "forge-1.20.1-47.1.0.jar");
    assert_ne!(vanilla, forge);
    assert_eq!(client_jar_name(&"1.20.1".to_string(), &"forge-x".to_string(), false), "1.20.1.jar");
}

#[test]
fn modern_launch_assembly() {
    let templates = ArgumentTemplates::Modern {
        game: vec![
            ArgumentEntry::Literal("--username".to_string()),
            ArgumentEntry::Literal("${auth_player_name}".to_string()),
            ArgumentEntry::Gated {
                rules: vec![Rule { action: RuleAction::Allow, os_name: None, os_arch: None }],
                values: vec!["--demo".to_string()],
            },
        ],
        jvm: vec![
            ArgumentEntry::Gated {
                rules: vec![Rule { action: RuleAction::Allow, os_name: Some("osx".to_string()), os_arch: None }],
                values: vec!["-XstartOnFirstThread".to_string()],
            },
            ArgumentEntry::Gated {
                rules: vec![Rule { action: RuleAction::Allow, os_name: Some("linux".to_string()), os_arch: None }],
                values: vec!["-Dos=linux".to_string(), "-Dnatives=${natives_directory}".to_string()],
            },
            ArgumentEntry::Literal("-cp".to_string()),
            ArgumentEntry::Literal("${classpath}".to_string()),
        ],
    };
    let loader = Some(LoaderOverlay {
        game: vec!["--fml".to_string()],
        jvm: vec!["-Dloader=1".to_string()],
        main_class: Some("cpw.mods.Launcher".to_string()),
    });
    let logging = Some(LoggingArgument {
        argument: "-Dlog4j.configurationFile=${path}".to_string(),
        path: "/mc/assets/log_configs/client.xml".to_string(),
    });
    let plan = assemble_launch(&templates, &linux(), 17, &"net.minecraft.client.main.Main".to_string(), &loader, &context(), true, false, &logging);
    assert_eq!(
        plan.game_arguments,
        vec!["--username", "Steve", "--width", "1920", "--height", "1080", "--fml", "--fullscreen", "true"]
    );
    assert_eq!(plan.jvm_arguments[0], "-Dos=linux");
    assert_eq!(plan.jvm_arguments[1], "-Dnatives=/mc/natives/1.20.1");
    assert_eq!(plan.jvm_arguments[2], "-cp");
    assert_eq!(plan.jvm_arguments[3], "/mc/versions/1.20.1.jar;/mc/libraries/a.jar");
    assert_eq!(plan.jvm_arguments.len(), 4 + 42 + 1 + 1);
    assert_eq!(plan.jvm_arguments[4 + 42], "-Dloader=1");
    assert_eq!(plan.jvm_arguments[4 + 42 + 1], "-Dlog4j.configurationFile=/mc/assets/log_configs/client.xml");
    assert_eq!(plan.main_class, "cpw.mods.Launcher");
}

#[test]
fn legacy_launch_assembly_on_windows() {
    let templates = ArgumentTemplates::Legacy("${auth_player_name} ${game_directory} ${user_type}".to_string());
    let plan = assemble_launch(&templates, &linux(), 8, &"net.minecraft.client.Minecraft".to_string(), &None, &context(), false, true, &None);
    assert_eq!(plan.game_arguments, vec!["Steve", "\\mc\\instances\\demo", "msa", "--width", "1920", "--height", "1080"]);
    assert_eq!(plan.jvm_arguments[0], "-cp");
    assert_eq!(plan.jvm_arguments[1], "\\mc\\versions\\1.20.1.jar;\\mc\\libraries\\a.jar");
    assert_eq!(plan.jvm_arguments[2], "-Djava.library.path=\\mc\\natives\\1.20.1");
    assert_eq!(plan.jvm_arguments.len(), 3 + 11);
    assert_eq!(plan.main_class, "net.minecraft.client.Minecraft");
}

#[test]
fn gated_jvm_entries_on_windows() {
    let windows = Platform { os: "windows".to_string(), arch: "x64".to_string() };
    let templates = ArgumentTemplates::Modern {
        game: vec![],
        jvm: vec![
            ArgumentEntry::Literal("-c".to_string()),
            ArgumentEntry::Gated { rules: vec![], values: vec!["-Dx=1".to_string()] },
            ArgumentEntry::Gated {
                rules: vec![Rule { action: RuleAction::Allow, os_name: Some("windows".to_string()), os_arch: None }],
                values: vec!["-a".to_string(), "-b".to_string()],
            },
        ],
    };
    let plan = assemble_launch(&templates, &windows, 8, &"M".to_string(), &None, &context(), false, false, &None);
    assert_eq!(plan.jvm_arguments[..3].to_vec(), vec!["-c", "-a", "-b"]);
    assert_eq!(plan.jvm_arguments[3], "-Dfml.ignoreInvalidMinecraftCertificates=true");
    assert!(!plan.jvm_arguments.contains(&"-Dx=1".to_string()));
}
