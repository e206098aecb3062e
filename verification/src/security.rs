//! Credentials, checks on user input, and the policy on file paths.
pub mod input_validation;
pub mod keyring_store;
pub mod pacific_clock;
pub mod path_policy;
