pub mod clock;
pub mod config;
pub mod control;
pub mod influx;
pub mod serial;
pub mod text;
pub mod web;
