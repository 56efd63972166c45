//! Replacing the routes when the configuration file has changed.
//!
//! The file is read and the new router is built before anything is touched:
//! the router in use is replaced as a whole, or not at all.
use crate::error::{Error, ErrorView};
use crate::server::router::{router_of, Router};
use crate::specs::mock_config::MockConfig;
use vstd::prelude::*;

verus! {

/// How a reload ended.
#[derive(Debug, PartialEq, Eq)]
pub enum Reload {
    /// The router was replaced by the one of the new configuration.
    Replaced,
    /// The router is the one of before, because of this error.
    Kept(Error),
}

/// The router of a configuration that was loaded, or the reason why there
/// is none: the error of loading, or the first syntax error of a pattern.
pub fn build_router(loaded: Result<MockConfig, Error>) -> (r: Result<Router, Error>)
    ensures
        match loaded {
            Err(failure) => r == Err::<Router, Error>(failure),
            Ok(config) => match router_of(config@) {
                Ok(view) => r matches Ok(router) && router@ == view,
                Err(e) => r matches Err(x) && x@ == ErrorView::Url(e),
            },
        },
{
    match loaded {
        Ok(config) => match Router::new(config) {
            Ok(router) => Ok(router),
            Err(e) => Err(Error::Url(e)),
        },
        Err(failure) => Err(failure),
    }
}

/// Puts a router that was built in the place of the current one. Where
/// none was built the current router stays as it is.
pub fn swap_router(current: &mut Router, built: Result<Router, Error>) -> (r: Reload)
    ensures
        match built {
            Ok(router) => *final(current) == router && r is Replaced,
            Err(failure) => *final(current) == *old(current) && r == Reload::Kept(failure),
        },
{
    match built {
        Ok(router) => {
            *current = router;
            Reload::Replaced
        },
        Err(failure) => Reload::Kept(failure),
    }
}

/// Reloads the routes from a configuration that was loaded. A configuration
/// that could not be loaded, or that holds a pattern with a syntax error,
/// leaves the current router as it is.
pub fn reload_specs(current: &mut Router, loaded: Result<MockConfig, Error>) -> (r: Reload)
    ensures
        match loaded {
            Err(failure) => *final(current) == *old(current) && r == Reload::Kept(failure),
            Ok(config) => match router_of(config@) {
                Ok(view) => final(current)@ == view && r is Replaced,
                Err(e) => {
                    &&& *final(current) == *old(current)
                    &&& r matches Reload::Kept(x)
                    &&& x@ == ErrorView::Url(e)
                },
            },
        },
{
    swap_router(current, build_router(loaded))
}

} // verus!
