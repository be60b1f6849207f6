//! Floor maps: floor plans split into pages ("floor maps"), and the objects
//! placed on them, kept in a small relational store.
#![allow(non_snake_case)]

pub mod flexuuid;
pub mod flextimestamp;
pub mod models;
pub mod text;
pub mod sorting;
pub mod table;
pub mod db;
pub mod apiv1;
pub mod cli;
pub mod pages;
pub mod template;
