use atlas_launcher::error::LaunchError;
use atlas_launcher::loader::{Loader, LoaderFamily};
use atlas_launcher::processor::{
    installer_steps, lookup_data, plan_processors, resolve_argument, runs_on_client, DataEntry,
    InstallProfile, Processor, ProcessorContext,
};

fn ctx() -> ProcessorContext {
    ProcessorContext {
        libraries_path: "/mc/libraries".to_string(),
        separator: '/',
        classpath_separator: ";".to_string(),
        minecraft_jar: "/mc/versions/1.20.1.jar".to_string(),
        client_lzma: "/mc/launcher/cache/1.20.1-47.1.0-client.lzma".to_string(),
    }
}

fn entry(key: &str, client: &str) -> DataEntry {
    DataEntry { key: key.to_string(), client: client.to_string(), server: "server-value".to_string() }
}

#[test]
fn mapping_token_resolves_to_library_path() {
    let data = vec![entry("MAPPINGS", "[net.x:y:1.0]")];
    let r = resolve_argument(&"{MAPPINGS}".to_string(), &data, &ctx()).unwrap();
    assert_eq!(r, "/mc/libraries/net/x/y/1.0/y-1.0.jar");
}

#[test]
fn argument_kinds() {
    let data = vec![entry("BINPATCH", "/data/client.lzma"), entry("MCP_VERSION", "'20230612'")];
    let c = ctx();
    assert_eq!(resolve_argument(&"--task".to_string(), &data, &c).unwrap(), "--task");
    assert_eq!(resolve_argument(&"{SIDE}".to_string(), &data, &c).unwrap(), "client");
    assert_eq!(resolve_argument(&"{MINECRAFT_JAR}".to_string(), &data, &c).unwrap(), "/mc/versions/1.20.1.jar");
    assert_eq!(
        resolve_argument(&"[de.oceanlabs.mcp:mcp_config:1.20.1@zip]".to_string(), &data, &c).unwrap(),
        "/mc/libraries/de/oceanlabs/mcp/mcp_config/1.20.1/mcp_config-1.20.1.zip"
    );
    assert_eq!(resolve_argument(&"{BINPATCH}".to_string(), &data, &c).unwrap(), c.client_lzma);
    assert_eq!(resolve_argument(&"{MCP_VERSION}".to_string(), &data, &c).unwrap(), "'20230612'");
    assert_eq!(resolve_argument(&"{MISSING}".to_string(), &data, &c), Err(LaunchError::MalformedManifest));
}

#[test]
fn data_lookup_takes_first_row() {
    let data = vec![entry("A", "one"), entry("A", "two")];
    assert_eq!(lookup_data(&data, &"A".to_string()), Some("one".to_string()));
    assert_eq!(lookup_data(&data, &"B".to_string()), None);
}

#[test]
fn sides_filter() {
    assert!(runs_on_client(&None));
    assert!(runs_on_client(&Some(vec!["server".to_string(), "client".to_string()])));
    assert!(!runs_on_client(&Some(vec!["server".to_string()])));
}

fn step(jar: &str, args: &[&str], sides: Option<Vec<&str>>) -> Processor {
    Processor {
        jar: Some(jar.to_string()),
        classpath: vec!["a.b:c:1".to_string()],
        args: args.iter().map(|s| s.to_string()).collect(),
        sides: sides.map(|v| v.iter().map(|s| s.to_string()).collect()),
    }
}

#[test]
fn installer_steps_run_in_file_order() {
    let profile = InstallProfile {
        libraries: vec![],
        processors: vec![
            step("p.q:first:1", &["--one"], None),
            step("p.q:server:1", &["--server"], Some(vec!["server"])),
            step("p.q:second:1", &["{MAPPINGS}"], Some(vec!["client"])),
        ],
        data: vec![entry("MAPPINGS", "[net.x:y:1.0]")],
    };
    let loader = Some(Loader { family: LoaderFamily::Forge, version: "1.20.1-47.1.0".to_string() });
    let steps = installer_steps(&loader, &Some(profile), &ctx()).unwrap();
    assert_eq!(steps.len(), 2);
    assert_eq!(steps[0].args, vec!["--one".to_string()]);
    assert_eq!(steps[0].main_jar.as_deref(), Some("/mc/libraries/p/q/first/1/first-1.jar"));
    assert_eq!(
        steps[0].classpath,
        "/mc/libraries/a/b/c/1/c-1.jar;/mc/libraries/p/q/first/1/first-1.jar"
    );
    assert_eq!(steps[1].args, vec!["/mc/libraries/net/x/y/1.0/y-1.0.jar".to_string()]);
}

#[test]
fn no_installer_steps_without_legacy_loader() {
    let fabric = Some(Loader { family: LoaderFamily::Fabric, version: "0.14.21".to_string() });
    let profile = Some(InstallProfile { libraries: vec![], processors: vec![step("p.q:r:1", &[], None)], data: vec![] });
    assert!(installer_steps(&fabric, &profile, &ctx()).unwrap().is_empty());
    assert!(installer_steps(&None, &None, &ctx()).unwrap().is_empty());
}

#[test]
fn malformed_step_fails_plan() {
    let ps = vec![Processor { jar: Some("bad".to_string()), classpath: vec![], args: vec![], sides: None }];
    assert_eq!(plan_processors(&ps, &vec![], &ctx()).err(), Some(LaunchError::MalformedManifest));
}
