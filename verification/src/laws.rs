//! What holds of the registry whatever is called, stated over the registry's
//! model and proved from the operations' own contracts.

pub mod agreement;
pub mod ids;
pub mod lifetimes;
pub mod lists;
pub mod profiles;
pub mod scores;
pub mod verdicts;
