//! The parameters of the management requests the agent serves, and what each
//! request resolves to before the chain is called.

pub mod join;
pub mod list;
pub mod list_subnets;
