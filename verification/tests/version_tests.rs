use registry_versions::error::{CargoError, ErrorKind};
use registry_versions::handlers::{downloads, index, show, ShowTarget};
use registry_versions::record::{CrateDependency, Version, VersionAuthor, VersionRow};
use registry_versions::store::Store;

fn demo_store() -> (Store, i32) {
    let mut s = Store::new();
    s.add_user(5, "alice");
    let crate_id = s.add_crate("demo", vec![5]);
    (s, crate_id)
}

#[test]
fn valid_accepts_and_rejects() {
    assert!(Version::valid("1.0.0"));
    assert!(Version::valid("1.2.3-alpha.1+42"));
    assert!(!Version::valid("1.0"));
    assert!(!Version::valid("1.0.01"));
    assert!(!Version::valid("1.0.0-"));
    assert!(!Version::valid("not a version"));
}

#[test]
fn find_by_num_absent_is_none() {
    let (s, crate_id) = demo_store();
    let r = Version::find_by_num(&s, crate_id, "2.0.0");
    assert_eq!(r, Ok(None));
}

#[test]
fn find_by_num_invalid_semver_is_error() {
    let (s, crate_id) = demo_store();
    let r = Version::find_by_num(&s, crate_id, "2.0");
    assert_eq!(r, Err(CargoError::InvalidSemver { num: String::from("2.0") }));
    assert_eq!(CargoError::InvalidSemver { num: String::from("2.0") }.kind(), ErrorKind::InvalidInput);
}

#[test]
fn insert_and_reload_round_trip() {
    let (mut s, crate_id) = demo_store();
    let v = Version::insert(
        &mut s,
        crate_id,
        "1.2.3-alpha.1+42",
        vec![(String::from("extra"), vec![String::from("serde")])],
        vec![String::from("alice")],
        0,
    )
    .unwrap();
    assert_eq!(v.num, "1.2.3-alpha.1+42");
    assert_eq!(v.downloads, 0);
    assert!(!v.yanked);
    let reloaded = Version::find_by_num(&s, crate_id, "1.2.3-alpha.1+42").unwrap().unwrap();
    assert_eq!(reloaded.num, "1.2.3-alpha.1+42");
    assert_eq!(reloaded.features, vec![(String::from("extra"), vec![String::from("serde")])]);
    let by_id = Version::find(&s, v.id).unwrap();
    assert_eq!(by_id.num, "1.2.3-alpha.1+42");
}

#[test]
fn insert_duplicate_is_internal_error() {
    let (mut s, crate_id) = demo_store();
    Version::insert(&mut s, crate_id, "1.0.0", vec![], vec![], 0).unwrap();
    let r = Version::insert(&mut s, crate_id, "1.0.0", vec![], vec![], 0);
    assert_eq!(r, Err(CargoError::Internal));
}

#[test]
fn insert_unknown_crate_is_internal_error() {
    let mut s = Store::new();
    let r = Version::insert(&mut s, 99, "1.0.0", vec![], vec![], 0);
    assert_eq!(r, Err(CargoError::Internal));
}

#[test]
fn insert_invalid_semver_is_rejected() {
    let (mut s, crate_id) = demo_store();
    let r = Version::insert(&mut s, crate_id, "nope", vec![], vec![], 0);
    assert_eq!(r, Err(CargoError::InvalidSemver { num: String::from("nope") }));
}

#[test]
fn null_feature_blob_decodes_to_empty_mapping() {
    let row = VersionRow {
        id: 1,
        crate_id: 1,
        num: String::from("1.0.0"),
        updated_at: 0,
        created_at: 0,
        downloads: 3,
        features: None,
        yanked: false,
    };
    let v = Version::from_row(&row);
    assert!(v.features.is_empty());
    assert_eq!(v.downloads, 3);
}

#[test]
fn table_name_is_versions() {
    assert_eq!(Version::table_name(), "versions");
}

#[test]
fn find_missing_id_is_not_found() {
    let (s, _) = demo_store();
    let r = Version::find(&s, 42);
    assert_eq!(r, Err(CargoError::VersionIdNotFound { id: 42 }));
    assert_eq!(CargoError::VersionIdNotFound { id: 42 }.kind(), ErrorKind::NotFound);
}

#[test]
fn add_dependency_unknown_crate_is_caller_error() {
    let (mut s, crate_id) = demo_store();
    let v = Version::insert(&mut s, crate_id, "1.0.0", vec![], vec![], 0).unwrap();
    let r = v.add_dependency(
        &mut s,
        CrateDependency {
            name: String::from("nope"),
            version_req: String::from("^1"),
            optional: false,
            default_features: true,
            features: vec![],
        },
    );
    assert_eq!(r.unwrap_err(), CargoError::CrateNotFound { name: String::from("nope") });
}

#[test]
fn two_dependencies_list_in_order() {
    let (mut s, crate_id) = demo_store();
    s.add_crate("alpha", vec![]);
    s.add_crate("beta", vec![]);
    let v = Version::insert(&mut s, crate_id, "1.0.0", vec![], vec![], 0).unwrap();
    let (d1, k1) = v
        .add_dependency(
            &mut s,
            CrateDependency {
                name: String::from("alpha"),
                version_req: String::from("^0.3"),
                optional: false,
                default_features: true,
                features: vec![String::from("std")],
            },
        )
        .unwrap();
    assert_eq!(k1.name, "alpha");
    assert_eq!(d1.req, "^0.3");
    v.add_dependency(
        &mut s,
        CrateDependency {
            name: String::from("beta"),
            version_req: String::from("=2.0.0"),
            optional: true,
            default_features: false,
            features: vec![],
        },
    )
    .unwrap();
    let deps = v.dependencies(&s).unwrap();
    assert_eq!(deps.len(), 2);
    assert_eq!(deps[0].1, "alpha");
    assert_eq!(deps[1].1, "beta");
    assert_eq!(deps[0].0.req, "^0.3");
    assert_eq!(deps[0].0.features, vec![String::from("std")]);
    assert!(deps[1].0.optional);
    assert!(!deps[1].0.default_features);
    let by_name = registry_versions::handlers::dependencies(&s, "demo", "1.0.0").unwrap();
    assert_eq!(by_name.len(), 2);
    assert_eq!(by_name[0].1, "alpha");
    assert_eq!(by_name[1].1, "beta");
}

#[test]
fn authors_split_into_users_and_names() {
    let (mut s, crate_id) = demo_store();
    let v = Version::insert(&mut s, crate_id, "1.0.0", vec![], vec![String::from("Free Text")], 0)
        .unwrap();
    s.record_user_author(v.id, 5, "alice");
    let listed = v.authors(&s).unwrap();
    assert_eq!(listed.len(), 2);
    match &listed[0] {
        VersionAuthor::AuthorName(n) => assert_eq!(n, "Free Text"),
        VersionAuthor::AuthorUser(_) => panic!("expected a free-text author first"),
    }
    match &listed[1] {
        VersionAuthor::AuthorUser(u) => {
            assert_eq!(u.id, 5);
            assert_eq!(u.login, "alice");
        },
        VersionAuthor::AuthorName(_) => panic!("expected a registered user second"),
    }
    let (users, names) = registry_versions::handlers::authors(&s, "demo", "1.0.0").unwrap();
    assert_eq!(users.len(), 1);
    assert_eq!(users[0].login, "alice");
    assert_eq!(names, vec![String::from("Free Text")]);
}

#[test]
fn author_referencing_missing_user_is_not_found() {
    let (mut s, crate_id) = demo_store();
    let v = Version::insert(&mut s, crate_id, "1.0.0", vec![], vec![], 0).unwrap();
    s.record_user_author(v.id, 77, "ghost");
    let r = v.authors(&s);
    assert_eq!(r.unwrap_err(), CargoError::UserNotFound { id: 77 });
}

#[test]
fn add_author_appends_free_text_row() {
    let (mut s, crate_id) = demo_store();
    let v = Version::insert(&mut s, crate_id, "1.0.0", vec![], vec![], 0).unwrap();
    v.add_author(&mut s, "someone else").unwrap();
    let listed = v.authors(&s).unwrap();
    assert_eq!(listed.len(), 1);
    match &listed[0] {
        VersionAuthor::AuthorName(n) => assert_eq!(n, "someone else"),
        VersionAuthor::AuthorUser(_) => panic!("expected a free-text author"),
    }
}

#[test]
fn index_empty_id_set_returns_empty_list() {
    let (mut s, crate_id) = demo_store();
    Version::insert(&mut s, crate_id, "1.0.0", vec![], vec![], 0).unwrap();
    let listed = index(&s, &vec![]);
    assert!(listed.is_empty());
}

#[test]
fn index_lists_requested_versions_with_wire_fields() {
    let (mut s, crate_id) = demo_store();
    let v1 = Version::insert(&mut s, crate_id, "1.0.0", vec![], vec![], 0).unwrap();
    let v2 = Version::insert(&mut s, crate_id, "2.0.0", vec![], vec![], 0).unwrap();
    let listed = index(&s, &vec![v2.id, v1.id]);
    assert_eq!(listed.len(), 2);
    assert_eq!(listed[0].num, "1.0.0");
    assert_eq!(listed[1].num, "2.0.0");
    let e = &listed[0];
    assert_eq!(e.krate, "demo");
    assert_eq!(e.dl_path, "/api/v1/crates/demo/1.0.0/download");
    assert_eq!(e.links.dependencies, "/api/v1/crates/demo/1.0.0/dependencies");
    assert_eq!(e.links.version_downloads, "/api/v1/crates/demo/1.0.0/downloads");
    assert_eq!(e.links.authors, "/api/v1/crates/demo/1.0.0/authors");
    assert_eq!(e.updated_at, "1970-01-01T00:00:00Z");
    assert_eq!(e.created_at, "1970-01-01T00:00:00Z");
    assert_eq!(e.downloads, 0);
    assert!(!e.yanked);
    assert_ne!(listed[0].dl_path, listed[1].dl_path);
}

#[test]
fn show_by_num_and_by_id() {
    let (mut s, crate_id) = demo_store();
    let v = Version::insert(&mut s, crate_id, "1.0.0", vec![], vec![], 1_700_000_000).unwrap();
    let by_num = show(
        &s,
        &ShowTarget::ByNum { krate: String::from("demo"), num: String::from("1.0.0") },
    )
    .unwrap();
    assert_eq!(by_num.num, "1.0.0");
    assert_eq!(by_num.krate, "demo");
    assert_eq!(by_num.created_at, "2023-11-14T22:13:20Z");
    let by_id = show(&s, &ShowTarget::ById { id: v.id }).unwrap();
    assert_eq!(by_id.num, "1.0.0");
    let missing = show(&s, &ShowTarget::ById { id: 999 });
    assert_eq!(missing.unwrap_err(), CargoError::VersionIdNotFound { id: 999 });
    let wrong_num = show(
        &s,
        &ShowTarget::ByNum { krate: String::from("demo"), num: String::from("9.9.9") },
    );
    assert_eq!(
        wrong_num.unwrap_err(),
        CargoError::VersionNotFound { krate: String::from("demo"), num: String::from("9.9.9") },
    );
    let wrong_crate = show(
        &s,
        &ShowTarget::ByNum { krate: String::from("ghost"), num: String::from("1.0.0") },
    );
    assert_eq!(wrong_crate.unwrap_err(), CargoError::CrateNotFound { name: String::from("ghost") });
}

#[test]
fn downloads_window_is_filtered_and_ascending() {
    let (mut s, crate_id) = demo_store();
    let v = Version::insert(&mut s, crate_id, "1.0.0", vec![], vec![], 0).unwrap();
    s.record_download(v.id, 1, 4);
    s.record_download(v.id + 1, 40, 100);
    s.record_download(v.id, 50, 7);
    s.record_download(v.id, 98, 9);
    let listed = downloads(&s, "demo", "1.0.0", 100).unwrap();
    assert_eq!(listed.len(), 2);
    assert_eq!((listed[0].date, listed[0].downloads), (50, 7));
    assert_eq!((listed[1].date, listed[1].downloads), (98, 9));
    assert!(listed.iter().all(|d| d.version == v.id));
}
