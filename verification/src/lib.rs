//! An OCI registry as a binary cache for Nix.
//!
//! A cache object, such as an archive or its descriptor, is stored in the
//! registry as an image with one layer, under a tag that stands for the key
//! of the object. This library holds the rules of that cache: how keys are
//! written as tags, how descriptors are written and signed, what is pushed
//! for a store path, how an object is looked up under its tags, and what a
//! request to the gateway is answered with. It reads no file and sends
//! nothing: where that is called for, it says what to do, and takes what
//! came of it.

pub mod codec;
pub mod convert;
pub mod error;
pub mod key;
pub mod nix;
pub mod options;
pub mod pattern;
pub mod push;
pub mod registry;
pub mod server;
pub mod text;
