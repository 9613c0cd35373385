//! Checks of a zkSync protocol upgrade (v29) against what the upgrade is
//! expected to contain.

pub mod abi;
pub mod alias;
pub mod bytes;
pub mod factory_deps;
pub mod force_deployment;
pub mod protocol_version;
pub mod registry;
pub mod report;
pub mod upgrade;
pub mod upgrade_check;
