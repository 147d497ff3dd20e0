use registry_versions::error::{CargoError, ErrorKind};
use registry_versions::handlers::{unyank, yank};
use registry_versions::record::Version;
use registry_versions::store::Store;

fn published_demo() -> Store {
    let mut s = Store::new();
    s.add_user(5, "alice");
    s.add_user(7, "mallory");
    let crate_id = s.add_crate("demo", vec![5]);
    Version::insert(&mut s, crate_id, "1.0.0", vec![], vec![], 0).unwrap();
    s
}

fn yanked_flag(s: &Store) -> bool {
    Version::find_by_num(s, s.crates[0].id, "1.0.0").unwrap().unwrap().yanked
}

#[test]
fn owner_yank_flips_flag_and_records_one_index_mutation() {
    let mut s = published_demo();
    let r = yank(&mut s, "demo", "1.0.0", 5);
    assert_eq!(r, Ok(true));
    assert!(yanked_flag(&s));
    let outbox = s.index_outbox();
    assert_eq!(outbox.len(), 1);
    assert_eq!(outbox[0].krate, "demo");
    assert_eq!(outbox[0].num, "1.0.0");
    assert!(outbox[0].yanked);
}

#[test]
fn second_yank_is_a_no_op() {
    let mut s = published_demo();
    assert_eq!(yank(&mut s, "demo", "1.0.0", 5), Ok(true));
    assert_eq!(yank(&mut s, "demo", "1.0.0", 5), Ok(true));
    assert!(yanked_flag(&s));
    assert_eq!(s.index_outbox().len(), 1);
}

#[test]
fn unauthorized_unyank_changes_nothing() {
    let mut s = published_demo();
    assert_eq!(yank(&mut s, "demo", "1.0.0", 5), Ok(true));
    let r = unyank(&mut s, "demo", "1.0.0", 7);
    assert_eq!(r, Err(CargoError::Unauthorized));
    assert_eq!(CargoError::Unauthorized.kind(), ErrorKind::Unauthorized);
    assert!(yanked_flag(&s));
    assert_eq!(s.index_outbox().len(), 1);
}

#[test]
fn unauthorized_yank_leaves_flag_clear() {
    let mut s = published_demo();
    let r = yank(&mut s, "demo", "1.0.0", 7);
    assert_eq!(r, Err(CargoError::Unauthorized));
    assert!(!yanked_flag(&s));
    assert!(s.index_outbox().is_empty());
}

#[test]
fn unyank_round_trip_records_both_mutations() {
    let mut s = published_demo();
    assert_eq!(yank(&mut s, "demo", "1.0.0", 5), Ok(true));
    assert_eq!(unyank(&mut s, "demo", "1.0.0", 5), Ok(true));
    assert!(!yanked_flag(&s));
    let outbox = s.index_outbox();
    assert_eq!(outbox.len(), 2);
    assert!(outbox[0].yanked);
    assert!(!outbox[1].yanked);
}

#[test]
fn unyank_on_clear_flag_is_a_no_op() {
    let mut s = published_demo();
    assert_eq!(unyank(&mut s, "demo", "1.0.0", 5), Ok(true));
    assert!(!yanked_flag(&s));
    assert!(s.index_outbox().is_empty());
}

#[test]
fn yank_of_unknown_crate_or_version_fails() {
    let mut s = published_demo();
    assert_eq!(
        yank(&mut s, "ghost", "1.0.0", 5),
        Err(CargoError::CrateNotFound { name: String::from("ghost") }),
    );
    assert_eq!(
        yank(&mut s, "demo", "2.0.0", 5),
        Err(CargoError::VersionNotFound { krate: String::from("demo"), num: String::from("2.0.0") }),
    );
    assert_eq!(
        yank(&mut s, "demo", "bogus", 5),
        Err(CargoError::InvalidSemver { num: String::from("bogus") }),
    );
    assert!(s.index_outbox().is_empty());
    assert!(!yanked_flag(&s));
}

#[test]
fn direct_relational_yank_updates_only_the_flag() {
    let mut s = published_demo();
    let v = Version::find_by_num(&s, s.crates[0].id, "1.0.0").unwrap().unwrap();
    assert_eq!(v.yank(&mut s, true), Ok(()));
    assert!(yanked_flag(&s));
    assert!(s.index_outbox().is_empty());
}
