use fleet_core::instance_pool::{
    CloudProvider, InstancePool, InstancePoolRepositoryError, PoolBoundsError, StorageFailure,
};

fn pool(min_instances: i32, max_instances: i32) -> InstancePool {
    InstancePool {
        id: 1,
        name: String::from("gpu-pool"),
        description: None,
        provider: CloudProvider::Aws,
        region: String::from("us-east-1"),
        instance_type: String::from("p4d.24xlarge"),
        min_instances,
        max_instances,
        created_at: 0,
        updated_at: 0,
    }
}

#[test]
fn pool_bounds() {
    let p = pool(2, 5);
    assert!(p.can_add(4));
    assert!(!p.can_add(5));
    assert!(p.can_remove(3));
    assert!(!p.can_remove(2));
    assert_eq!(p.check_add(5), Err(PoolBoundsError::PoolAtCapacity));
    assert_eq!(p.check_add(0), Ok(()));
    assert_eq!(p.check_remove(2), Err(PoolBoundsError::PoolBelowMinimum));
    assert_eq!(p.check_remove(5), Ok(()));
    let empty = pool(0, 0);
    assert!(!empty.can_add(0));
    assert!(!empty.can_remove(0));
}

#[test]
fn provider_names() {
    assert_eq!(CloudProvider::Aws.as_str(), "aws");
    assert_eq!(CloudProvider::Gcp.as_str(), "gcp");
    assert_eq!(CloudProvider::Azure.as_str(), "azure");
    assert_eq!(CloudProvider::from_name("azure"), Some(CloudProvider::Azure));
    assert_eq!(CloudProvider::from_name("gcp"), Some(CloudProvider::Gcp));
    assert_eq!(CloudProvider::from_name("aws"), Some(CloudProvider::Aws));
    assert_eq!(CloudProvider::from_name("AWS"), None);
    assert_eq!(CloudProvider::from_name(""), None);
    assert_eq!(CloudProvider::from_name("azures"), None);
}

#[test]
fn storage_failures_are_classified() {
    let id = String::from("5f0c");
    match InstancePoolRepositoryError::from_storage(StorageFailure::RowNotFound, id.clone()) {
        InstancePoolRepositoryError::NotFound(s) => assert_eq!(s, "5f0c"),
        other => panic!("unexpected {other:?}"),
    }
    let dup = StorageFailure::UniqueViolation { field: String::from("name"), value: String::from("p") };
    match InstancePoolRepositoryError::from_storage(dup, id.clone()) {
        InstancePoolRepositoryError::Duplicate { field, value } => {
            assert_eq!((field.as_str(), value.as_str()), ("name", "p"))
        }
        other => panic!("unexpected {other:?}"),
    }
    match InstancePoolRepositoryError::from_storage(StorageFailure::Other(String::from("io")), id) {
        InstancePoolRepositoryError::Unknown(m) => assert_eq!(m, "io"),
        other => panic!("unexpected {other:?}"),
    }
}
