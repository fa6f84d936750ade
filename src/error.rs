use vstd::prelude::*;

use crate::path::{JvmsPath, PathView};

verus! {

/// Why a configuration is not usable.
#[derive(Debug, Clone, PartialEq, Eq)]
pub enum ConfigurationError {
    /// No toolchain is registered.
    NoToolchains,
    /// The named toolchain's home directory does not exist.
    InvalidJavaHome(String),
    /// No default toolchain is set.
    NoDefaultToolchain,
    /// The default names a toolchain that is not registered.
    UnknownDefaultToolchain(String),
    /// The override at this path names a toolchain that is not registered.
    UnknownOverrideToolchain(JvmsPath, String),
    /// No override matches this directory and no default toolchain is usable.
    NoToolchainForDirectory(JvmsPath),
}

/// Everything that can go wrong in this library and around it.
#[derive(Debug, Clone, PartialEq, Eq)]
pub enum JvmsError {
    /// Reading or writing a file, or starting a process, failed.
    IoError(String),
    /// The configuration breaks one of its rules.
    InvalidConfiguration(ConfigurationError),
    /// The stored configuration could not be read as data.
    SerdeJsonError(String),
}

/// The mathematical value of a [`ConfigurationError`].
pub enum Problem {
    NoToolchains,
    InvalidJavaHome(Seq<char>),
    NoDefaultToolchain,
    UnknownDefaultToolchain(Seq<char>),
    UnknownOverrideToolchain(PathView, Seq<char>),
    NoToolchainForDirectory(PathView),
}

/// The mathematical value of a [`JvmsError`].
pub enum ErrorView {
    IoError(Seq<char>),
    InvalidConfiguration(Problem),
    SerdeJsonError(Seq<char>),
}

impl View for ConfigurationError {
    type V = Problem;

    open spec fn view(&self) -> Problem {
        match self {
            ConfigurationError::NoToolchains => Problem::NoToolchains,
            ConfigurationError::InvalidJavaHome(n) => Problem::InvalidJavaHome(n@),
            ConfigurationError::NoDefaultToolchain => Problem::NoDefaultToolchain,
            ConfigurationError::UnknownDefaultToolchain(n) => Problem::UnknownDefaultToolchain(n@),
            ConfigurationError::UnknownOverrideToolchain(p, n) => Problem::UnknownOverrideToolchain(
                p@,
                n@,
            ),
            ConfigurationError::NoToolchainForDirectory(p) => Problem::NoToolchainForDirectory(p@),
        }
    }
}

impl View for JvmsError {
    type V = ErrorView;

    open spec fn view(&self) -> ErrorView {
        match self {
            JvmsError::IoError(m) => ErrorView::IoError(m@),
            JvmsError::InvalidConfiguration(c) => ErrorView::InvalidConfiguration(c@),
            JvmsError::SerdeJsonError(m) => ErrorView::SerdeJsonError(m@),
        }
    }
}

} // verus!
