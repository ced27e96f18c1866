use git_get::error::RetrievalError;
use git_get::guard::{check_dest_path_safety, DestinationState};

#[test]
fn absent_destination_passes() {
    assert_eq!(check_dest_path_safety(DestinationState::Absent, "util"), Ok(()));
}

#[test]
fn empty_directory_passes() {
    assert_eq!(check_dest_path_safety(DestinationState::Directory { entries: 0 }, "util"), Ok(()));
}

#[test]
fn file_is_refused() {
    assert_eq!(
        check_dest_path_safety(DestinationState::File, "util"),
        Err(RetrievalError::DestinationIsFile { path: "util".to_string() })
    );
}

#[test]
fn directory_with_entries_is_refused() {
    assert_eq!(
        check_dest_path_safety(DestinationState::Directory { entries: 1 }, "./vendor/util"),
        Err(RetrievalError::DestinationNotEmpty { path: "./vendor/util".to_string() })
    );
    assert_eq!(
        check_dest_path_safety(DestinationState::Directory { entries: usize::MAX }, "d"),
        Err(RetrievalError::DestinationNotEmpty { path: "d".to_string() })
    );
}

#[test]
fn the_two_refusals_differ() {
    let file = check_dest_path_safety(DestinationState::File, "d");
    let full = check_dest_path_safety(DestinationState::Directory { entries: 3 }, "d");
    assert!(file.is_err());
    assert!(full.is_err());
    assert_ne!(file, full);
}
