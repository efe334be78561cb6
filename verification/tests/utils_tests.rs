use to_core::utils::id_generator;
use to_core::utils::split_store_path::split_store_path;

#[test]
fn test_split_store_path() {
    let (dir, filename) = split_store_path("/home/user/test.db");
    assert_eq!(dir, "/home/user");
    assert_eq!(filename, "test.db");
}

#[test]
fn test_split_store_path_windows() {
    let (dir, filename) = split_store_path("C:\\home\\user\\test.db");
    assert_eq!(dir, "C:\\home\\user");
    assert_eq!(filename, "test.db");
}

#[test]
fn test_split_store_path_many_levels() {
    let (dir, filename) = split_store_path("/home/user/test\\test.db");
    assert_eq!(dir, "/home/user/test");
    assert_eq!(filename, "test.db");
}

#[test]
fn split_store_path_without_directory() {
    assert_eq!(split_store_path("test.db"), ("".to_string(), "test.db".to_string()));
    assert_eq!(split_store_path(""), ("".to_string(), "".to_string()));
    assert_eq!(split_store_path("/"), ("".to_string(), "".to_string()));
    assert_eq!(split_store_path("dir/"), ("dir".to_string(), "".to_string()));
}

#[test]
fn id_generator_test_generate_id() {
    let id = id_generator::generate_id();
    assert_eq!(id.len(), 5);
    assert!(id.chars().all(|c| c.is_ascii_alphanumeric() || c == '_' || c == '-'));
}

#[test]
fn mod_test_generate_id() {
    let id = to_core::utils::generate_id();
    assert_eq!(id.len(), 7);
}

#[test]
fn generated_ids_differ() {
    let a = id_generator::generate_id();
    let b = id_generator::generate_id();
    let c = id_generator::generate_id();
    assert!(a != b || b != c);
}
