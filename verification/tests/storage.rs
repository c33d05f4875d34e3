use make87::config::ConfigValue;
use make87::index::NameIndex;
use make87::models::{
    ApplicationConfig, ApplicationEnvConfig, ApplicationInfo, MountedPeripherals, StorageConfig,
};
use make87::storage::{BlobStorage, S3Path};

fn create_test_storage_config() -> StorageConfig {
    StorageConfig {
        url: "s3://test-bucket/system".to_string(),
        access_key: "test_access_key".to_string(),
        secret_key: "test_secret_key".to_string(),
        endpoint_url: "http://localhost:9000".to_string(),
    }
}

fn create_test_application_config() -> ApplicationConfig {
    ApplicationEnvConfig {
        interfaces: NameIndex::new(),
        peripherals: MountedPeripherals { peripherals: vec![] },
        config: ConfigValue::Null,
        storage: Some(create_test_storage_config()),
        application_info: ApplicationInfo {
            deployed_application_id: "test-deployed-app".to_string(),
            deployed_application_name: String::new(),
            system_id: String::new(),
            application_id: "test-app".to_string(),
            application_name: String::new(),
            git_url: None,
            git_branch: None,
            is_release_version: false,
        },
    }
}

#[test]
fn test_s3path_new() {
    let path = S3Path::new("s3://my-bucket/path/to/file");
    assert_eq!(path.bucket, "my-bucket");
    assert_eq!(path.key, "path/to/file");

    let path = S3Path::new("my-bucket/path/to/file");
    assert_eq!(path.bucket, "my-bucket");
    assert_eq!(path.key, "path/to/file");

    let path = S3Path::new("s3://bucket-only");
    assert_eq!(path.bucket, "bucket-only");
    assert_eq!(path.key, "");

    let path = S3Path::new("s3://bucket/");
    assert_eq!(path.bucket, "bucket");
    assert_eq!(path.key, "");
}

#[test]
fn test_s3path_join() {
    let base = S3Path::new("s3://bucket/base");
    let joined = base.join("subpath");
    assert_eq!(joined.key, "base/subpath");

    let base = S3Path::new("s3://bucket/base/");
    let joined = base.join("subpath");
    assert_eq!(joined.key, "base/subpath");

    let base = S3Path::new("s3://bucket");
    let joined = base.join("subpath");
    assert_eq!(joined.key, "subpath");

    let base = S3Path::new("s3://bucket/base");
    let joined = base.join("/subpath");
    assert_eq!(joined.key, "base/subpath");
}

#[test]
fn test_s3path_to_uri() {
    let path = S3Path::new("s3://bucket/path/file");
    assert_eq!(path.to_uri(), "s3://bucket/path/file");

    let path = S3Path::new("s3://bucket");
    assert_eq!(path.to_uri(), "s3://bucket");
}

#[test]
fn test_s3path_display() {
    let path = S3Path::new("s3://bucket/path/file");
    assert_eq!(path.to_uri(), "s3://bucket/path/file");

    let path = S3Path::new("s3://bucket");
    assert_eq!(path.to_uri(), "s3://bucket");
}

#[test]
fn test_s3path_filename() {
    let path = S3Path::new("s3://bucket/path/to/file.txt");
    assert_eq!(path.filename(), Some("file.txt"));

    let path = S3Path::new("s3://bucket/path/to/");
    assert_eq!(path.filename(), Some(""));

    let path = S3Path::new("s3://bucket");
    assert_eq!(path.filename(), None);

    let path = S3Path::new("s3://bucket/file");
    assert_eq!(path.filename(), Some("file"));
}

#[test]
fn test_s3path_parent() {
    let path = S3Path::new("s3://bucket/path/to/file");
    let parent = path.parent().unwrap();
    assert_eq!(parent.bucket, "bucket");
    assert_eq!(parent.key, "path/to");

    let path = S3Path::new("s3://bucket/file");
    let parent = path.parent().unwrap();
    assert_eq!(parent.bucket, "bucket");
    assert_eq!(parent.key, "");

    let path = S3Path::new("s3://bucket");
    assert!(path.parent().is_none());
}

#[test]
fn test_s3path_equality() {
    let path1 = S3Path::new("s3://bucket/path");
    let path2 = S3Path::new("s3://bucket/path");
    let path3 = S3Path::new("s3://bucket/other");

    assert_eq!(path1, path2);
    assert_ne!(path1, path3);
}

#[test]
fn test_blob_storage_new() {
    let config = create_test_application_config();
    let storage = BlobStorage::new(config);
    assert_eq!(storage.config.application_info.application_id, "test-app");
}

#[test]
fn test_blob_storage_get_system_path() {
    let config = create_test_application_config();
    let storage = BlobStorage::new(config);
    let system_path = storage.get_system_path().unwrap();
    assert_eq!(system_path.bucket, "test-bucket");
    assert_eq!(system_path.key, "system");
}

#[test]
fn test_blob_storage_get_application_path() {
    let config = create_test_application_config();
    let storage = BlobStorage::new(config);
    let app_path = storage.get_application_path().unwrap();
    assert_eq!(app_path.bucket, "test-bucket");
    assert_eq!(app_path.key, "system/test-app");
}

#[test]
fn test_blob_storage_get_deployed_application_path() {
    let config = create_test_application_config();
    let storage = BlobStorage::new(config);
    let deployed_path = storage.get_deployed_application_path().unwrap();
    assert_eq!(deployed_path.bucket, "test-bucket");
    assert_eq!(deployed_path.key, "system/test-deployed-app");
}

#[test]
fn test_blob_storage_no_storage_config() {
    let mut config = create_test_application_config();
    config.storage = None;
    let storage = BlobStorage::new(config);
    assert!(storage.get_system_path().is_none());
    assert!(storage.get_application_path().is_none());
    assert!(storage.get_deployed_application_path().is_none());
}
