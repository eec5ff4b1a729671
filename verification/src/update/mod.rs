//! `athanor-update`: the decisions of the image update service. The registry, bootc,
//! the disk and the bus are reached by the caller, which hands in what they answered.

pub mod check;
pub mod migrate;
pub mod policy;
pub mod recover;
pub mod requests;
pub mod secureboot;
pub mod sigobj;
pub mod state;
pub mod store;
pub mod tools;
