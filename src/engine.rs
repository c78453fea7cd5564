//! The engine: the catalog it recognizes items from, its settings, and the
//! errors of starting and running it.

use vstd::prelude::*;

use crate::cache::CacheError;
use crate::catalog::Catalog;
use crate::net::ReqwestSerdeError;

verus! {

/// Where the OCR program and the catalog cache are.
#[derive(Debug, Clone, PartialEq, Eq)]
pub struct Settings {
    pub tesseract_path: String,
    pub cache_path: String,
}

/// Why the engine could not be started.
#[derive(Debug, Clone, PartialEq, Eq)]
pub enum EngineCreateError {
    /// The cache directory could not be created.
    CreateCachePathError(String),
    /// The OCR program could not be run.
    OcrUnavailable(String),
    /// The catalog could not be loaded or fetched.
    FetchError(CacheError<ReqwestSerdeError>),
}

/// Why the engine stopped.
#[derive(Debug, Clone, PartialEq, Eq)]
pub enum EngineRunError {
    /// No game window is open.
    WarframeNotRunning,
    /// The screen capture backend failed.
    XCapError(String),
}

/// The recognition engine, over a catalog built once at startup.
pub struct Engine {
    items: Catalog,
}

impl Engine {
    /// The catalog that the engine recognizes items from.
    pub closed spec fn catalog_spec(&self) -> Catalog {
        self.items
    }

    /// An engine over `catalog`.
    pub fn with_catalog(catalog: Catalog) -> (r: Engine)
        ensures
            r.catalog_spec() == catalog,
    {
        Engine { items: catalog }
    }

    /// The catalog that the engine recognizes items from.
    pub fn catalog(&self) -> (r: &Catalog)
        ensures
            *r == self.catalog_spec(),
    {
        &self.items
    }
}

} // verus!
