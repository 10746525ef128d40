//! An in-memory order service: validated create/get/list/update/delete
//! operations on a store of orders, with a typed error model and its
//! HTTP projection. Transport (HTTP routing, JSON codecs, the lock around
//! the store) lives outside the library; everything here is verified.

pub mod db;
pub mod errors;
pub mod ids;
pub mod laws;
pub mod models;
pub mod order_dtos;
pub mod strutil;
