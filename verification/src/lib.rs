//! Ingestion and indexing of gridded wind forecasts: a GRIB edition 2 reader
//! with its packing decoders, the naming of stored forecasts, the wind grid,
//! the inventory of known forecasts and the decisions of the provider engine.
pub mod config;
pub mod error;
pub mod grib;
pub mod providers;
pub mod stamp;
pub mod text;
pub mod time;
