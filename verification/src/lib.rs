pub mod model;
pub mod strutil;
pub mod limits;
pub mod census;
pub mod reconcile;
pub mod pass;
