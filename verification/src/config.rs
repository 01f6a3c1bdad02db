//! Project configuration data: the plain values read from a project's
//! manifest file. Loading and parsing the file is the caller's concern; the
//! library only carries the values.

use vstd::prelude::*;

verus! {

/// Project metadata and build options.
#[derive(Clone, Debug)]
pub struct ProjectInfo {
    /// The plugin package name, used for identification and artifact naming.
    pub name: String,
    /// The language identifier that selects the build strategy.
    pub language: String,
    /// The declared project version.
    pub version: Option<String>,
    /// The primary author.
    pub author: Option<String>,
    /// All authors.
    pub authors: Option<Vec<String>>,
    /// A short description.
    pub description: Option<String>,
    /// The license identifier.
    pub license: Option<String>,
    /// The project homepage.
    pub homepage: Option<String>,
    /// The source repository.
    pub repository: Option<String>,
    /// Search keywords.
    pub keywords: Option<Vec<String>>,
}

/// Custom build options: an override command, and where the artifact lands.
#[derive(Clone, Debug)]
pub struct BuildConfig {
    /// A custom build command that replaces the default build logic.
    pub cmd: Option<String>,
    /// The directory the built artifact is placed in.
    pub output_dir: Option<String>,
    /// The artifact file name inside `output_dir`.
    pub artifact: Option<String>,
}

/// Declared SDK expectations.
#[derive(Clone, Debug)]
pub struct SdkConfig {
    /// The SDK version the project declares.
    pub version: Option<String>,
}

/// The whole project configuration.
#[derive(Clone, Debug)]
pub struct ProjectConfig {
    pub project: ProjectInfo,
    pub build: Option<BuildConfig>,
    pub sdk: Option<SdkConfig>,
}

} // verus!
