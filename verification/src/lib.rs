//! Decision logic of a checkpointing agent for hierarchical subnets.
//!
//! The agent watches a parent chain and its child subnets and submits
//! periodic checkpoints in both directions.  This crate holds the rules the
//! agent follows: which subnets it manages, when a validator owes a
//! checkpoint, what a well-formed payload is, and how supervisors start, stop
//! and restart.  All network traffic is left to the caller, who feeds chain
//! observations in as plain values and carries the returned actions out.
//!
//! From the leaves up:
//!
//! * [`address`], [`subnet_id`], [`tipset`] and [`payload`] model what
//!   travels between the agent and the chains;
//! * [`evm`] and [`lotus`] prepare the calls to the two kinds of chain, and
//!   [`receipt`] bounds the wait for a receipt;
//! * [`epoch`], [`bottomup`] and [`topdown`] decide which checkpoint is due
//!   and assemble it;
//! * [`attempt`] is one validator's turn, [`supervisor`] walks a pair's
//!   validators through their turns, and [`checkpoint`] keeps one supervisor
//!   per managed pair of the configuration in [`config`];
//! * [`handlers`], [`params`] and [`keystore`] serve the management requests;
//! * [`search`] and [`text`] are small helpers on lists and text.

pub mod address;
pub mod attempt;
pub mod bottomup;
pub mod checkpoint;
pub mod config;
pub mod epoch;
pub mod error;
pub mod evm;
pub mod handlers;
pub mod keystore;
pub mod lotus;
pub mod params;
pub mod payload;
pub mod receipt;
pub mod search;
pub mod subnet_id;
pub mod supervisor;
pub mod text;
pub mod tipset;
pub mod topdown;
