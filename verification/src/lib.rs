//! A verified core for a GitLab-oriented `git` subcommand.
//!
//! The heart of the crate is the branch-resolution engine in [`resolve`]:
//! given the observed facts about the local repository and the hosted
//! project, it picks exactly one way to obtain the source branch of a new
//! merge request.  The surrounding modules hold the naming policy, the
//! configuration model, argument validators and the small pure helpers the
//! command is built from.

pub mod config;
pub mod gitlab;
pub mod mr;
pub mod naming;
pub mod project;
pub mod resolve;
pub mod strutil;
pub mod utils;
pub mod validator;
