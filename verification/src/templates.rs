//! Scaffolding templates for newly initialised plugin projects, one
//! function per generated file.

use vstd::prelude::*;

verus! {

/// The Cargo manifest of a new Rust plugin.
pub fn rust_cargo_toml(name: &str) -> (r: String)
    ensures
        r@ == ("[package]\nname = \"")@ + name@ + (
        "\"\nversion = \"0.1.0\"\nedition = \"2021\"\n\n[lib]\ncrate-type = [\"cdylib\"]\n\n[dependencies]\nvtx-sdk = \"0.1.2\"\nserde = { version = \"1.0\", features = [\"derive\"] }\nserde_json = \"1.0\"\nanyhow = \"1.0\"\n")@,
{
    String::from_str("[package]\nname = \"").concat(name).concat(
        "\"\nversion = \"0.1.0\"\nedition = \"2021\"\n\n[lib]\ncrate-type = [\"cdylib\"]\n\n[dependencies]\nvtx-sdk = \"0.1.2\"\nserde = { version = \"1.0\", features = [\"derive\"] }\nserde_json = \"1.0\"\nanyhow = \"1.0\"\n",
    )
}

/// The library root of a new Rust plugin.
pub fn rust_lib_rs() -> (r: String)
    ensures
        r@ == (
        "use vtx_sdk::prelude::*;\n\nmod config;\n\n#[derive(Default)]\nstruct Plugin;\n\nimpl VtxPlugin for Plugin {\n    fn get_manifest() -> Manifest {\n        Manifest {\n            id: config::PLUGIN_ID.to_string(),\n            name: config::PLUGIN_NAME.to_string(),\n            version: env!(\"CARGO_PKG_VERSION\").to_string(),\n            description: config::PLUGIN_DESC.to_string(),\n            entrypoint: config::ENTRYPOINT.to_string(),\n        }\n    }\n\n    fn get_capabilities() -> Capabilities {\n        Capabilities {\n            subscriptions: config::SUBSCRIPTIONS.iter().map(|s| s.to_string()).collect(),\n            permissions: config::PERMISSIONS.iter().map(|p| p.to_string()).collect(),\n            http: None,\n        }\n    }\n}\n\nexport_plugin!(Plugin);\n")@,
{
    String::from_str(
        "use vtx_sdk::prelude::*;\n\nmod config;\n\n#[derive(Default)]\nstruct Plugin;\n\nimpl VtxPlugin for Plugin {\n    fn get_manifest() -> Manifest {\n        Manifest {\n            id: config::PLUGIN_ID.to_string(),\n            name: config::PLUGIN_NAME.to_string(),\n            version: env!(\"CARGO_PKG_VERSION\").to_string(),\n            description: config::PLUGIN_DESC.to_string(),\n            entrypoint: config::ENTRYPOINT.to_string(),\n        }\n    }\n\n    fn get_capabilities() -> Capabilities {\n        Capabilities {\n            subscriptions: config::SUBSCRIPTIONS.iter().map(|s| s.to_string()).collect(),\n            permissions: config::PERMISSIONS.iter().map(|p| p.to_string()).collect(),\n            http: None,\n        }\n    }\n}\n\nexport_plugin!(Plugin);\n",
    )
}

/// The configuration module of a new Rust plugin.
pub fn rust_config_rs(name: &str) -> (r: String)
    ensures
        r@ == ("// Centralized plugin configuration.\n\npub const PLUGIN_ID: &str = \"vtx.")@
            + name@ + ("\";\npub const PLUGIN_NAME: &str = \"")@ + name@ + (
        "\";\npub const PLUGIN_DESC: &str = \"Short plugin summary\";\npub const ENTRYPOINT: &str = \"/\";\n\npub const SUBSCRIPTIONS: &[&str] = &[];\npub const PERMISSIONS: &[&str] = &[];\n")@,
{
    String::from_str("// Centralized plugin configuration.\n\npub const PLUGIN_ID: &str = \"vtx.")
        .concat(name).concat("\";\npub const PLUGIN_NAME: &str = \"").concat(name).concat(
        "\";\npub const PLUGIN_DESC: &str = \"Short plugin summary\";\npub const ENTRYPOINT: &str = \"/\";\n\npub const SUBSCRIPTIONS: &[&str] = &[];\npub const PERMISSIONS: &[&str] = &[];\n",
    )
}

/// The project manifest of a new Rust plugin.
pub fn rust_vtx_toml(name: &str) -> (r: String)
    ensures
        r@ == ("vtx_version = 1\n\n[project]\nname = \"")@ + name@ + (
        "\"\nversion = \"0.1.0\"\nlanguage = \"rust\"\nauthors = [{ name = \"Your Name\", email = \"you@example.com\" }]\ndescription = \"Short plugin summary\"\nlicense = \"MIT\"\nhomepage = \"https://example.com\"\nrepository = \"https://example.com/repo\"\nkeywords = [\"vtx\", \"plugin\"]\n")@,
{
    String::from_str("vtx_version = 1\n\n[project]\nname = \"").concat(name).concat(
        "\"\nversion = \"0.1.0\"\nlanguage = \"rust\"\nauthors = [{ name = \"Your Name\", email = \"you@example.com\" }]\ndescription = \"Short plugin summary\"\nlicense = \"MIT\"\nhomepage = \"https://example.com\"\nrepository = \"https://example.com/repo\"\nkeywords = [\"vtx\", \"plugin\"]\n",
    )
}

/// The package manifest of a new TypeScript plugin.
pub fn ts_package_json(name: &str) -> (r: String)
    ensures
        r@ == ("{\n  \"name\": \"")@ + name@ + (
        "\",\n  \"version\": \"0.1.0\",\n  \"scripts\": {\n    \"build\": \"echo no build script configured\"\n  }\n}\n")@,
{
    String::from_str("{\n  \"name\": \"").concat(name).concat(
        "\",\n  \"version\": \"0.1.0\",\n  \"scripts\": {\n    \"build\": \"echo no build script configured\"\n  }\n}\n",
    )
}

/// The entry module of a new TypeScript plugin.
pub fn ts_index_ts() -> (r: String)
    ensures
        r@ == ("export {};\n")@,
{
    String::from_str("export {};\n")
}

/// The project manifest of a new TypeScript plugin.
pub fn ts_vtx_toml(name: &str) -> (r: String)
    ensures
        r@ == ("vtx_version = 1\n\n[project]\nname = \"")@ + name@ + (
        "\"\nversion = \"0.1.0\"\nlanguage = \"ts\"\nauthors = [{ name = \"Your Name\", email = \"you@example.com\" }]\ndescription = \"Short plugin summary\"\nlicense = \"MIT\"\nhomepage = \"https://example.com\"\nrepository = \"https://example.com/repo\"\nkeywords = [\"vtx\", \"plugin\"]\n")@,
{
    String::from_str("vtx_version = 1\n\n[project]\nname = \"").concat(name).concat(
        "\"\nversion = \"0.1.0\"\nlanguage = \"ts\"\nauthors = [{ name = \"Your Name\", email = \"you@example.com\" }]\ndescription = \"Short plugin summary\"\nlicense = \"MIT\"\nhomepage = \"https://example.com\"\nrepository = \"https://example.com/repo\"\nkeywords = [\"vtx\", \"plugin\"]\n",
    )
}

/// The build manifest of a new Python plugin.
pub fn pyproject_toml(name: &str) -> (r: String)
    ensures
        r@ == (
        "[build-system]\nrequires = [\"setuptools\"]\nbuild-backend = \"setuptools.build_meta\"\n\n[project]\nname = \"")@
            + name@ + ("\"\nversion = \"0.1.0\"\n")@,
{
    String::from_str(
        "[build-system]\nrequires = [\"setuptools\"]\nbuild-backend = \"setuptools.build_meta\"\n\n[project]\nname = \"",
    ).concat(name).concat("\"\nversion = \"0.1.0\"\n")
}

/// The entry module of a new Python plugin.
pub fn python_init_py() -> (r: String)
    ensures
        r@ == ("# plugin entry\n")@,
{
    String::from_str("# plugin entry\n")
}

/// The project manifest of a new Python plugin.
pub fn python_vtx_toml(name: &str) -> (r: String)
    ensures
        r@ == ("vtx_version = 1\n\n[project]\nname = \"")@ + name@ + (
        "\"\nversion = \"0.1.0\"\nlanguage = \"python\"\nauthors = [{ name = \"Your Name\", email = \"you@example.com\" }]\ndescription = \"Short plugin summary\"\nlicense = \"MIT\"\nhomepage = \"https://example.com\"\nrepository = \"https://example.com/repo\"\nkeywords = [\"vtx\", \"plugin\"]\n")@,
{
    String::from_str("vtx_version = 1\n\n[project]\nname = \"").concat(name).concat(
        "\"\nversion = \"0.1.0\"\nlanguage = \"python\"\nauthors = [{ name = \"Your Name\", email = \"you@example.com\" }]\ndescription = \"Short plugin summary\"\nlicense = \"MIT\"\nhomepage = \"https://example.com\"\nrepository = \"https://example.com/repo\"\nkeywords = [\"vtx\", \"plugin\"]\n",
    )
}

} // verus!
