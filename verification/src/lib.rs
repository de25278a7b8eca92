//! A small order-management backend for a restaurant: seeded catalogs of
//! tables and menu items, transactional insertion of order lines with
//! server-generated cook durations, join queries by table or by
//! table/item pair, and deletion by pair.
//!
//! The persistence contract is stated and proved over an explicit model
//! of the store's contents (`store`); the SQLite-backed operations (`db`)
//! run the same statements through a small trusted layer; the request
//! handlers (`response`) map store results to HTTP status codes and JSON
//! payloads.

pub mod db;
pub mod duration;
pub mod model;
pub mod response;
pub mod store;
