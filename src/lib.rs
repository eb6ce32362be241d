//! A verified data-access layer for a cultivation registry: growers, strains,
//! batches and their terpene profiles, kept in a relational store with serial
//! identities and foreign keys, and queried by closed filter criteria.

pub mod db;
pub mod laws;
pub mod models;
pub mod text;
