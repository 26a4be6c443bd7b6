//! The declarative server description that drives a build.

use vstd::prelude::*;

verus! {

/// One server's declarative description, loaded once per run and immutable
/// afterwards.  Lists are carried only as the identifiers of their entries;
/// the interpolator reads their lengths, the artifact source their ids.
pub struct ServerConfig {
    /// Display name of the server.
    pub name: String,
    /// Game version the server runs.
    pub mc_version: String,
    /// Identifiers of plugins to install.
    pub plugins: Vec<String>,
    /// Identifiers of mods to install.
    pub mods: Vec<String>,
    /// Names of worlds the server carries.
    pub worlds: Vec<String>,
    /// Identifiers of client-side-only mods.
    pub clientsidemods: Vec<String>,
    /// User-defined template variables, first binding of a key wins.
    pub variables: Vec<(String, String)>,
    /// Whether the launcher is asked to auto-accept the EULA.
    pub launcher_eula_args: bool,
    /// Whether the selected server jar natively supports an EULA flag.
    pub jar_supports_eula_args: bool,
}

} // verus!
