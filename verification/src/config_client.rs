//! The config loader's handle.
//!
//! The core consumes a [`crate::Config`] as a value. Reading the YAML
//! document from disk and deserializing it belong to the surrounding
//! program; these types only carry the path it is loaded from.

use crate::model::AcquireError;
use vstd::prelude::*;

verus! {

/// Where the config document is read from.
pub struct ConfigClientConfig {
    config_path: String,
}

impl View for ConfigClientConfig {
    type V = Seq<char>;

    closed spec fn view(&self) -> Seq<char> {
        self.config_path@
    }
}

impl ConfigClientConfig {
    /// Wraps the path of the config document.
    pub fn new(config_path: String) -> (r: Result<Self, AcquireError>)
        ensures
            r matches Ok(c) && c@ == config_path@,
    {
        Ok(Self { config_path })
    }

    /// The path of the config document.
    pub fn config_path(&self) -> (r: &str)
        ensures
            r@ == self@,
    {
        self.config_path.as_str()
    }
}

/// Hands out the location of the config document to whoever loads it.
pub struct ConfigClient {
    config: ConfigClientConfig,
}

impl View for ConfigClient {
    type V = Seq<char>;

    closed spec fn view(&self) -> Seq<char> {
        self.config@
    }
}

impl ConfigClient {
    pub fn new(config: ConfigClientConfig) -> (r: Self)
        ensures
            r@ == config@,
    {
        Self { config }
    }

    /// The path of the config document.
    pub fn config_path(&self) -> (r: &str)
        ensures
            r@ == self@,
    {
        self.config.config_path()
    }
}

} // verus!
