use atlas_launcher::coordinate::{coordinate_path, library_name_to_path};
use atlas_launcher::error::LaunchError;

#[test]
fn plain_coordinate_path() {
    assert_eq!(coordinate_path("net.x:y:1.0", '/').unwrap(), "net/x/y/1.0/y-1.0.jar");
}

#[test]
fn classifier_and_extension() {
    assert_eq!(
        coordinate_path("org.lwjgl:lwjgl:3.3.1:natives-windows@zip", '/').unwrap(),
        "org/lwjgl/lwjgl/3.3.1/lwjgl-3.3.1-natives-windows.zip"
    );
}

#[test]
fn backslash_separator() {
    assert_eq!(coordinate_path("a.b.c:d:2", '\\').unwrap(), "a\\b\\c\\d\\2\\d-2.jar");
}

#[test]
fn short_coordinate_is_malformed() {
    assert_eq!(coordinate_path("a:b", '/'), Err(LaunchError::MalformedManifest));
    assert_eq!(library_name_to_path("/root/libraries", "", '/'), Err(LaunchError::MalformedManifest));
}

#[test]
fn full_library_path() {
    assert_eq!(
        library_name_to_path("/root/libraries", "net.minecraftforge:forge:1.20-47.1.0:client", '/').unwrap(),
        "/root/libraries/net/minecraftforge/forge/1.20-47.1.0/forge-1.20-47.1.0-client.jar"
    );
}
