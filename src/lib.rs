//! A directory of car-related businesses: classification of tagged map
//! elements, reconciliation of feed records with user registrations, and
//! proximity search over the stored records.
pub mod api;
pub mod business;
pub mod category;
pub mod config;
pub mod overpass;
pub mod search;
pub mod store;
pub mod tags;
pub mod text;
