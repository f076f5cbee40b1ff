//! Generation of build-recipe text for a package and its resolved
//! dependencies: translation of version-control URLs into the fetcher's
//! dialect, location of on-disk license evidence, best-effort probing of the
//! upstream repository, classification of dependency origins into fetch
//! directives, and assembly of the final recipe fields.

pub mod classify;
pub mod git;
pub mod license;
pub mod recipe;
pub mod strutil;
