//! Verified logic of two circuit components: the lane rotation and base
//! conversion of the Keccak rho step, and the bus operations of the EVM `CALL`
//! opcode.

pub mod call;
pub mod call_laws;
pub mod call_run;
pub mod call_step_laws;
pub mod chunk_laws;
pub mod chunks;
pub mod circuit;
pub mod entry_laws;
pub mod evm;
pub mod gas;
pub mod lane_config;
pub mod lane_laws;
pub mod natural;
pub mod power;
pub mod rho_checks;
pub mod rho_laws;
pub mod rotation;
pub mod rotation_laws;
pub mod tables;
pub mod word;
