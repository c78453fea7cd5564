//! The policy of the on-disk cache of catalog stages: a stored value is used
//! as it is; otherwise the value is produced, then stored once.

use vstd::prelude::*;

verus! {

/// Why a cached operation failed.
#[derive(Debug, Clone, PartialEq, Eq)]
pub enum CacheError<T> {
    /// The cache file could not be created.
    CreateFileError(String),
    /// The value could not be written to the cache file.
    SerdeError(String),
    /// Producing the value failed.
    InnerError(T),
}

/// Why storing a produced value failed.
#[derive(Debug, Clone, PartialEq, Eq)]
pub enum StoreFailure {
    /// The cache file could not be created.
    Create(String),
    /// The value could not be serialized into it.
    Serialize(String),
}

/// What to do next for a cached value.
#[derive(Debug, PartialEq, Eq)]
pub enum CacheStep<T, E> {
    /// The operation is over with this result.
    Finished(Result<T, CacheError<E>>),
    /// Nothing usable is stored: produce the value.
    Produce,
    /// Store this freshly produced value, then report it.
    Store(T),
}

/// After reading the cache file: a value that was read and parsed is the
/// result, and nothing is produced; without one the value is produced.
pub fn after_lookup<T, E>(stored: Option<T>) -> (r: CacheStep<T, E>)
    ensures
        r == match stored {
            Some(v) => CacheStep::<T, E>::Finished(Ok(v)),
            None => CacheStep::<T, E>::Produce,
        },
{
    match stored {
        Some(v) => CacheStep::Finished(Ok(v)),
        None => CacheStep::Produce,
    }
}

/// After producing the value: a produced value is stored; a failure is the
/// result, wrapped as the inner error.
pub fn after_produce<T, E>(produced: Result<T, E>) -> (r: CacheStep<T, E>)
    ensures
        r == match produced {
            Ok(v) => CacheStep::<T, E>::Store(v),
            Err(e) => CacheStep::<T, E>::Finished(Err(CacheError::InnerError(e))),
        },
{
    match produced {
        Ok(v) => CacheStep::Store(v),
        Err(e) => CacheStep::Finished(Err(CacheError::InnerError(e))),
    }
}

/// After storing the produced value: the value is the result, or the
/// failure to create or write the file.
pub fn after_store<T, E>(value: T, stored: Result<(), StoreFailure>) -> (r: Result<T, CacheError<E>>)
    ensures
        r == match stored {
            Ok(()) => Ok(value),
            Err(StoreFailure::Create(m)) => Err(CacheError::<E>::CreateFileError(m)),
            Err(StoreFailure::Serialize(m)) => Err(CacheError::<E>::SerdeError(m)),
        },
{
    match stored {
        Ok(()) => Ok(value),
        Err(StoreFailure::Create(m)) => Err(CacheError::CreateFileError(m)),
        Err(StoreFailure::Serialize(m)) => Err(CacheError::SerdeError(m)),
    }
}

} // verus!
