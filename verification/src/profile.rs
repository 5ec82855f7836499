//! What a build of the library is for.
//!
//! Device numbering and log redaction differ between platforms, and redaction
//! also between debug and release builds. The library takes those facts as
//! plain values.
use vstd::prelude::*;

verus! {

/// The desktop platforms whose audio backends the library knows.
#[derive(Clone, Copy, Debug, PartialEq, Eq, Structural)]
pub enum Platform {
    Windows,
    MacOs,
    Linux,
}

/// The platform a program runs on and how it was compiled.
#[derive(Clone, Copy, Debug, PartialEq, Eq, Structural)]
pub struct BuildProfile {
    pub platform: Platform,
    /// Debug assertions are on: a developer's local build.
    pub debug_assertions: bool,
    /// A test build: it redacts like a release build, with the rules of every
    /// platform.
    pub testing: bool,
}

impl BuildProfile {
    /// Logs are written in full: only in a developer's local build, never in a
    /// release or under test.
    pub open spec fn full_logs(self) -> bool {
        self.debug_assertions && !self.testing
    }

    /// The redaction rules for `platform`'s audio backend are in force.
    pub open spec fn covers(self, platform: Platform) -> bool {
        self.platform == platform || self.testing
    }

    /// Whether logs are written in full.
    pub fn shows_full_logs(&self) -> (full: bool)
        ensures
            full == self.full_logs(),
    {
        self.debug_assertions && !self.testing
    }

    /// Whether the redaction rules for `platform`'s audio backend are in force.
    pub fn covers_platform(&self, platform: Platform) -> (covered: bool)
        ensures
            covered == self.covers(platform),
    {
        self.platform == platform || self.testing
    }
}

} // verus!
