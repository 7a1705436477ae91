//! What a route handler tells the router.
pub mod status;
