use fungi_daemon::transfer_paths::{client_name_of, is_root_path, transfer_path_components, TransferPathComponent};

#[test]
fn test_is_root_path() {
    // Test various root path representations
    assert!(is_root_path(&transfer_path_components(".")));
    assert!(is_root_path(&transfer_path_components("./")));
    assert!(is_root_path(&transfer_path_components("/")));
    assert!(is_root_path(&transfer_path_components("")));

    // Test non-root paths
    assert!(!is_root_path(&transfer_path_components("client1")));
    assert!(!is_root_path(&transfer_path_components("client1/file.txt")));
    assert!(!is_root_path(&transfer_path_components("./client1")));
    assert!(!is_root_path(&transfer_path_components("/client1")));
    assert!(!is_root_path(&transfer_path_components("client1/subdir/file.txt")));
}

#[test]
fn the_first_component_names_the_device() {
    let (name, rest) = client_name_of(&transfer_path_components("/laptop/docs/a.txt")).unwrap();
    assert_eq!(name, "laptop");
    assert_eq!(rest, 2);
    let (name, rest) = client_name_of(&transfer_path_components("laptop/docs/../b.txt")).unwrap();
    assert_eq!(name, "laptop");
    assert_eq!(rest, 1);
    assert_eq!(transfer_path_components("laptop/docs/../b.txt").len(), 2);
    assert_eq!(client_name_of(&transfer_path_components("/")).unwrap_err(), "No client specified in path");
    assert_eq!(client_name_of(&Vec::new()).unwrap_err(), "No client specified in path");
    assert_eq!(
        client_name_of(&vec![TransferPathComponent::Normal(String::new())]).unwrap_err(),
        "Empty path"
    );
}
