//! Instance pools: population bounds per (provider, region, instance type),
//! the guard that enforces them, and the storage error taxonomy for pools.
use vstd::prelude::*;

verus! {

#[derive(Clone, Copy, Debug, PartialEq, Eq, Structural)]
pub enum CloudProvider {
    Aws,
    Gcp,
    Azure,
}

pub open spec fn provider_name(p: CloudProvider) -> Seq<char> {
    match p {
        CloudProvider::Aws => seq!['a', 'w', 's'],
        CloudProvider::Gcp => seq!['g', 'c', 'p'],
        CloudProvider::Azure => seq!['a', 'z', 'u', 'r', 'e'],
    }
}

/// The provider whose canonical name is `s`, if any.
pub open spec fn provider_named(s: Seq<char>) -> Option<CloudProvider> {
    if s == provider_name(CloudProvider::Aws) {
        Some(CloudProvider::Aws)
    } else if s == provider_name(CloudProvider::Gcp) {
        Some(CloudProvider::Gcp)
    } else if s == provider_name(CloudProvider::Azure) {
        Some(CloudProvider::Azure)
    } else {
        None
    }
}

impl CloudProvider {
    /// The canonical lower-case name of the provider.
    pub fn as_str(&self) -> (r: &'static str)
        ensures
            r@ == provider_name(*self),
    {
        match self {
            CloudProvider::Aws => {
                proof {
                    reveal_strlit("aws");
                }
                "aws"
            },
            CloudProvider::Gcp => {
                proof {
                    reveal_strlit("gcp");
                }
                "gcp"
            },
            CloudProvider::Azure => {
                proof {
                    reveal_strlit("azure");
                }
                "azure"
            },
        }
    }

    /// The provider whose canonical name is `name`, if any.
    pub fn from_name(name: &str) -> (r: Option<CloudProvider>)
        ensures
            r == provider_named(name@),
    {
        let n = name.unicode_len();
        if n == 3 {
            let c0 = name.get_char(0);
            let c1 = name.get_char(1);
            let c2 = name.get_char(2);
            if c0 == 'a' && c1 == 'w' && c2 == 's' {
                assert(name@ =~= seq!['a', 'w', 's']);
                return Some(CloudProvider::Aws);
            }
            if c0 == 'g' && c1 == 'c' && c2 == 'p' {
                assert(name@ =~= seq!['g', 'c', 'p']);
                return Some(CloudProvider::Gcp);
            }
        } else if n == 5 {
            if name.get_char(0) == 'a' && name.get_char(1) == 'z' && name.get_char(2) == 'u'
                && name.get_char(3) == 'r' && name.get_char(4) == 'e' {
                assert(name@ =~= seq!['a', 'z', 'u', 'r', 'e']);
                return Some(CloudProvider::Azure);
            }
        }
        None
    }
}

/// Legal population bounds for the nodes of one (provider, region,
/// instance type) triple. Timestamps are milliseconds since the epoch.
#[derive(Debug)]
pub struct InstancePool {
    pub id: u128,
    pub name: String,
    pub description: Option<String>,
    pub provider: CloudProvider,
    pub region: String,
    pub instance_type: String,
    pub min_instances: i32,
    pub max_instances: i32,
    pub created_at: u64,
    pub updated_at: u64,
}

/// Why a change of pool membership is refused.
#[derive(Clone, Copy, Debug, PartialEq, Eq, Structural)]
pub enum PoolBoundsError {
    PoolAtCapacity,
    PoolBelowMinimum,
}

impl InstancePool {
    /// One more node keeps the pool within `max_instances`.
    pub fn can_add(&self, current: u32) -> (r: bool)
        ensures
            r == (current + 1 <= self.max_instances),
    {
        (current as i64) + 1 <= self.max_instances as i64
    }

    /// One node fewer keeps the pool at or above `min_instances`.
    pub fn can_remove(&self, current: u32) -> (r: bool)
        ensures
            r == (current - 1 >= self.min_instances),
    {
        (current as i64) - 1 >= self.min_instances as i64
    }

    /// Admission of one more node, with the reason when it is refused.
    pub fn check_add(&self, current: u32) -> (r: Result<(), PoolBoundsError>)
        ensures
            r is Ok <==> current + 1 <= self.max_instances,
            r is Err ==> r == Err::<(), PoolBoundsError>(PoolBoundsError::PoolAtCapacity),
    {
        if self.can_add(current) {
            Ok(())
        } else {
            Err(PoolBoundsError::PoolAtCapacity)
        }
    }

    /// Removal of one node, with the reason when it is refused.
    pub fn check_remove(&self, current: u32) -> (r: Result<(), PoolBoundsError>)
        ensures
            r is Ok <==> current - 1 >= self.min_instances,
            r is Err ==> r == Err::<(), PoolBoundsError>(PoolBoundsError::PoolBelowMinimum),
    {
        if self.can_remove(current) {
            Ok(())
        } else {
            Err(PoolBoundsError::PoolBelowMinimum)
        }
    }
}

/// Errors of the instance-pool store, in the library's taxonomy.
#[derive(Debug)]
pub enum InstancePoolRepositoryError {
    Duplicate { field: String, value: String },
    NotFound(String),
    Unknown(String),
}

/// A failure of the underlying store, as the persistence layer classifies it.
#[derive(Debug)]
pub enum StorageFailure {
    RowNotFound,
    UniqueViolation { field: String, value: String },
    Other(String),
}

impl InstancePoolRepositoryError {
    /// Maps a storage failure met while handling pool `id` into the
    /// taxonomy: a missing row is `NotFound(id)`, a uniqueness violation is
    /// `Duplicate`, anything else is `Unknown` with its message.
    pub fn from_storage(failure: StorageFailure, id: String) -> (r: InstancePoolRepositoryError)
        ensures
            failure is RowNotFound ==> r == InstancePoolRepositoryError::NotFound(id),
            failure matches StorageFailure::UniqueViolation { field, value } ==> r
                == (InstancePoolRepositoryError::Duplicate { field, value }),
            failure matches StorageFailure::Other(m) ==> r == InstancePoolRepositoryError::Unknown(
                m,
            ),
    {
        match failure {
            StorageFailure::RowNotFound => InstancePoolRepositoryError::NotFound(id),
            StorageFailure::UniqueViolation { field, value } => {
                InstancePoolRepositoryError::Duplicate { field, value }
            },
            StorageFailure::Other(m) => InstancePoolRepositoryError::Unknown(m),
        }
    }
}

} // verus!
