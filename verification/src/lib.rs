//! The decisions behind Rumpelpod's host side, free of any input or output.
pub mod cleanup;
pub mod client;
pub mod command;
pub mod config;
pub mod creation;
pub mod failure;
pub mod git;
pub mod greeting;
pub mod lfs;
pub mod outside;
pub mod paths;
pub mod podman_ssh;
pub mod readiness;
pub mod text;
pub mod upload;
