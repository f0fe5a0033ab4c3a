use vstd::prelude::*;

verus! {

/// A source file to be written: the directory to make, the file in it, and
/// the file's contents.
pub struct Generated {
    pub directory: String,
    pub file: String,
    pub content: String,
}

/// One module file to bring up to date: the file, and the module that it
/// has to declare.
pub struct ModuleStep {
    pub file: String,
    pub module: String,
}

} // verus!
