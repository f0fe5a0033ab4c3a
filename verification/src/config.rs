use vstd::prelude::*;

verus! {

/// The file, in the project's root, that holds the project's configuration.
pub const CONFIG_FILE: &'static str = "stack.yaml";

/// The language a project is generated in.
#[derive(Debug, PartialEq, Eq, Structural, Clone, Copy)]
pub enum Language {
    Go,
    Rust,
}

/// What is known of a project: its name and its language.
#[derive(Debug, Clone)]
pub struct Config {
    pub name: String,
    pub language: Language,
}

impl Config {
    /// The configuration of the project `name` in `language`.
    pub fn new(name: String, language: Language) -> (config: Self)
        ensures
            config.name == name,
            config.language == language,
    {
        Self { name, language }
    }
}

} // verus!
