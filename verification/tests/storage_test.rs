use shusei::storage::{join_path, new_image_file_name, relative_image_path, state_directory, state_file_path, StorageService};

#[test]
fn storage_paths() {
    let storage = StorageService::new("/tmp/app".to_string());
    assert_eq!(storage.assets_dir(), "/tmp/app");
    assert_eq!(storage.images_dir(), "/tmp/app/images");
    let name = new_image_file_name("test");
    assert!(name.starts_with("test_"));
    assert!(name.ends_with(".bin"));
    assert_eq!(name.len(), "test_".len() + 36 + ".bin".len());
    let relative = relative_image_path(&name);
    assert!(relative.starts_with("images/"));
    assert!(!relative.starts_with('/'));
    assert_eq!(storage.resolve(&relative), storage.image_file_path(&name));
    assert_eq!(join_path("a/", "b"), "a/b");
    assert_eq!(join_path("", "b"), "b");
    // An absolute part replaces the base, as `Path::join` does.
    assert_eq!(join_path("assets", "/tmp/x.bin"), "/tmp/x.bin");
    assert_eq!(join_path("assets", "/tmp/x.bin"), std::path::Path::new("assets").join("/tmp/x.bin").to_str().unwrap());
    assert_eq!(StorageService::new("assets".to_string()).resolve("/abs/img.bin"), "/abs/img.bin");
    assert_eq!(state_file_path(&state_directory("/home")), "/home/.shusei/app_state.json");
}
