use atlas_launcher::error::LaunchError;
use atlas_launcher::manifest::{get_version, has_marker, merge_catalogs, sort_by_release, strip_marker, MinecraftVersion};

fn v(id: &str, time: &str) -> MinecraftVersion {
    MinecraftVersion {
        id: id.to_string(),
        type_: "release".to_string(),
        url: format!("https://example.invalid/{id}.json"),
        release_time: time.to_string(),
        sha1: format!("sha-{id}"),
    }
}

#[test]
fn merged_catalog_is_latest_first_with_marker_block_last() {
    let primary = vec![
        v("1.5.2", "2013-04-25T15:45:00+00:00"),
        v("1.4.7", "2012-12-28T00:00:00+00:00"),
        v("1.3.2", "2012-08-15T00:00:00+00:00"),
        v("old-a", "2010-01-01T00:00:00+00:00"),
    ];
    let corrected = vec![v("old-a", "2010-01-01T00:00:00+00:00"), v("1.6.1", "2013-06-25T00:00:00+00:00")];
    let extra = vec![v("1.7.10", "2014-05-14T00:00:00+00:00")];
    let keep = vec!["1.3.2".to_string(), "1.5.2".to_string(), "1.4.7".to_string(), "absent".to_string()];
    let merged = merge_catalogs(primary, corrected, extra, 1, &keep).unwrap();
    let ids: Vec<&str> = merged.iter().map(|m| m.id.as_str()).collect();
    assert_eq!(ids, vec!["1.7.10", "1.6.1", "1.5.2", "1.4.7", "1.3.2", "old-a", "_1.3.2", "_1.5.2", "_1.4.7"]);
    for w in merged[..6].windows(2) {
        assert!(w[0].release_time >= w[1].release_time);
    }
    assert_eq!(merged[7].url, "https://example.invalid/1.5.2.json");
    assert_eq!(merged[7].sha1, "sha-1.5.2");
    assert_eq!(merged[7].release_time, "");
}

#[test]
fn primary_shorter_than_overlap_is_malformed() {
    let r = merge_catalogs(vec![v("a", "1")], vec![], vec![v("b", "2")], 5, &vec!["a".to_string()]);
    assert_eq!(r.err(), Some(LaunchError::MalformedManifest));
    let merged = merge_catalogs(vec![v("a", "1")], vec![], vec![v("b", "2")], 1, &vec!["a".to_string()]).unwrap();
    let ids: Vec<&str> = merged.iter().map(|m| m.id.as_str()).collect();
    assert_eq!(ids, vec!["b", "_a"]);
}

#[test]
fn sorting_is_latest_first() {
    let sorted = sort_by_release(vec![v("b", "2011"), v("c", "2012"), v("a", "2010"), v("d", "2012-01")]);
    let ids: Vec<&str> = sorted.iter().map(|m| m.id.as_str()).collect();
    assert_eq!(ids, vec!["d", "c", "b", "a"]);
}

#[test]
fn lookup_by_exact_id() {
    let list = vec![v("1.20.1", "2023"), v("_1.5.2", "")];
    assert_eq!(get_version(&list, &"_1.5.2".to_string()).unwrap().id, "_1.5.2");
    assert_eq!(get_version(&list, &"1.5.2".to_string()).err(), Some(LaunchError::NotFound));
}

#[test]
fn marker_prefix() {
    assert!(has_marker(&"_1.5.2".to_string()));
    assert!(!has_marker(&"1.5.2".to_string()));
    assert_eq!(strip_marker(&"_1.5.2".to_string()), "1.5.2");
    assert_eq!(strip_marker(&"1.5.2".to_string()), "1.5.2");
    assert_eq!(strip_marker(&"".to_string()), "");
}
