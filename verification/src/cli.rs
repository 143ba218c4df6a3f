//! The subcommand selectors of the command-line front end. Argument
//! parsing itself happens outside the library; these are the plain
//! choices it hands in.
use vstd::prelude::*;

verus! {

#[derive(Debug, Clone, Copy, PartialEq, Eq, Structural)]
pub enum ClusterCommands {
    List,
    Start,
}

#[derive(Debug, Clone, Copy, PartialEq, Eq, Structural)]
pub enum ConfigCommands {
    Cluster,
}

#[derive(Debug, Clone, Copy, PartialEq, Eq, Structural)]
pub enum StatusCommands {
    Context,
    Cluster,
}

} // verus!
