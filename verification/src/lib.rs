//! Resolution of a street address into a municipal waste-collection schedule,
//! and the rendering of that schedule.

pub mod address;
pub mod cli;
pub mod date;
pub mod day;
pub mod endpoint;
pub mod json;
pub mod model;
pub mod render;
pub mod resolve;
pub mod schedule;
pub mod text;

pub use crate::day::CollectionDay;
pub use crate::endpoint::{get_url, BASE_URL};
pub use crate::model::{
    BinData, BinDay, BinProperty, Localities, Locality, Properties, Property, Street, Streets,
};
