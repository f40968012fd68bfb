//! The settings of the gateway and of the pusher, as plain values.

use crate::convert::EncodingOptions;
use crate::pattern::Pattern;
use vstd::prelude::*;

verus! {

/// What the program was asked to do.
#[derive(Clone, Debug)]
pub struct Options {
    pub command: Commands,
}

/// The commands of the program.
#[derive(Clone, Debug)]
pub enum Commands {
    Server(ServerOptions),
    Tag(TagCommands),
    Push(PushOptions),
    Completion(CompletionOptions),
}

/// The settings of the gateway.
#[derive(Clone, Debug)]
pub struct ServerOptions {
    /// The address to listen on.
    pub listen: String,
    /// The cap on the tries of a request to the registry or to an upstream.
    pub max_retry: usize,
    /// Whether to speak plain HTTP to the registry.
    pub no_ssl: bool,
    /// The base URLs of the upstream caches, in the order to ask them.
    pub upstream: Vec<String>,
    /// Keys that this matches are not looked for upstream.
    pub ignore_upstream: Pattern,
    /// Whether to ask upstream for clients that sent no credentials.
    pub upstream_anonymous: bool,
    pub encoding_options: EncodingOptions,
}

/// The commands that convert between keys and tags.
#[derive(Clone, Debug)]
pub enum TagCommands {
    Encode { key: String, fallbacks: bool, encoding_options: EncodingOptions },
    Decode { tag: String, encoding_options: EncodingOptions },
}

/// The settings of the pusher.
#[derive(Clone, Debug)]
pub struct PushOptions {
    pub registry: String,
    pub repository: String,
    /// Whether to push the given paths only, without what they refer to.
    pub no_closure: bool,
    pub store_dir: String,
    /// Paths with a signature by a key whose name this matches are left out.
    pub excluded_signing_key_pattern: Pattern,
    /// Whether to push paths that the signing key has signed already.
    pub already_signed: bool,
    pub parallel: usize,
    pub zstd_level: i32,
    pub max_retry: usize,
    pub dry_run: bool,
    pub allow_immutable_db: bool,
    pub no_ssl: bool,
    pub encoding_options: EncodingOptions,
    pub subcommand: Option<PushSubcommands>,
}

/// The commands below the pusher's own.
#[derive(Clone, Debug)]
pub enum PushSubcommands {
    Initialize(InitializeOptions),
}

/// The settings of a new cache.
#[derive(Clone, Debug)]
pub struct InitializeOptions {
    pub priority: u32,
    pub no_mass_query: bool,
}

/// The settings of shell completion.
#[derive(Clone, Debug)]
pub struct CompletionOptions {
    /// The name of the shell.
    pub shell: String,
}

} // verus!
