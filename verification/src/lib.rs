//! Policy evaluation and decision logic of a command runner that lets an
//! authenticated user run a command as another account.
//!
//! The library holds the rules: which requests a policy authorizes, when a
//! password is needed, how cached authentications age, and how the pieces of
//! one invocation follow each other. Reading files, prompting, spawning and
//! waiting are left to the program around it.

pub mod authentication;
pub mod cache;
pub mod collections;
pub mod config;
pub mod document;
pub mod error;
pub mod invocation;
pub mod policy_file;
pub mod request;
pub mod rudoers;
pub mod session;
pub mod text;
pub mod user_info;
