//! The subcommands and their arguments, as the command line gives them.

use vstd::prelude::*;

verus! {

/// The parsed command line: one subcommand.
#[derive(Debug)]
pub struct EntryArgs {
    pub action: Action,
}

/// A subcommand with its arguments.
#[derive(Debug)]
pub enum Action {
    /// Deploys `image` on `nodes` (or on `$NODES`), after installing the
    /// disk image `bootstrap` on them when it is given.
    Deploy {
        image: String,
        options: Option<Vec<String>>,
        nodes: Option<Vec<String>>,
        bootstrap: Option<String>,
        command: Option<Vec<String>>,
    },
    /// Destroys the containers of `nodes`, without asking when `yes`.
    Destroy { yes: bool, nodes: Option<Vec<String>> },
    /// Builds an image from a Dockerfile or a URL and pushes it under `tags`.
    Build { file: Option<String>, url: Option<String>, tags: Vec<String> },
    /// Lists the images of the registry, or the tags of image `details`.
    List { details: Option<String> },
    /// Saves the container of `node` as image `name`.
    Save { name: String, node: String },
}

} // verus!
