use vstd::prelude::*;
use crate::category::Category;
use crate::config::Language;

verus! {

/// The parsed command line.
pub struct Cli {
    pub command: Commands,
}

/// The subcommands and their flags.
pub enum Commands {
    /// Initialize a new project.
    Init { name: String, go: bool, rust: bool },
    /// Generate a new component.
    Generate {
        path: String,
        name: String,
        protocol: bool,
        message: bool,
        contract: bool,
        model: bool,
        service: bool,
        mediator: bool,
        aggregator: bool,
        handler: bool,
        adapter: bool,
        server: bool,
        assembler: bool,
    },
}

impl Commands {
    /// The language that the flags of `Init` select: Go where it is asked
    /// for, else Rust where that is asked for, else none. `Generate` selects
    /// no language.
    pub open spec fn selected_language(&self) -> Option<Language> {
        match self {
            Commands::Init { go, rust, .. } => if *go {
                Some(Language::Go)
            } else if *rust {
                Some(Language::Rust)
            } else {
                None
            },
            Commands::Generate { .. } => None,
        }
    }

    /// The language that the flags select.
    pub fn language(&self) -> (language: Option<Language>)
        ensures
            language == self.selected_language(),
    {
        match self {
            Commands::Init { go, rust, .. } => if *go {
                Some(Language::Go)
            } else if *rust {
                Some(Language::Rust)
            } else {
                None
            },
            Commands::Generate { .. } => None,
        }
    }

    /// The category that the flags of `Generate` select: the first that is
    /// set, in the order protocol, message, contract, model, service,
    /// mediator, aggregator, handler, adapter, server, assembler. `Init`
    /// selects no category.
    pub open spec fn selected_category(&self) -> Option<Category> {
        match self {
            Commands::Init { .. } => None,
            Commands::Generate {
                protocol,
                message,
                contract,
                model,
                service,
                mediator,
                aggregator,
                handler,
                adapter,
                server,
                assembler,
                ..
            } => if *protocol {
                Some(Category::Protocol)
            } else if *message {
                Some(Category::Message)
            } else if *contract {
                Some(Category::Contract)
            } else if *model {
                Some(Category::Model)
            } else if *service {
                Some(Category::Service)
            } else if *mediator {
                Some(Category::Mediator)
            } else if *aggregator {
                Some(Category::Aggregator)
            } else if *handler {
                Some(Category::Handler)
            } else if *adapter {
                Some(Category::Adapter)
            } else if *server {
                Some(Category::Server)
            } else if *assembler {
                Some(Category::Assembler)
            } else {
                None
            },
        }
    }

    /// The category that the flags select.
    pub fn category(&self) -> (category: Option<Category>)
        ensures
            category == self.selected_category(),
    {
        match self {
            Commands::Init { .. } => None,
            Commands::Generate {
                protocol,
                message,
                contract,
                model,
                service,
                mediator,
                aggregator,
                handler,
                adapter,
                server,
                assembler,
                ..
            } => if *protocol {
                Some(Category::Protocol)
            } else if *message {
                Some(Category::Message)
            } else if *contract {
                Some(Category::Contract)
            } else if *model {
                Some(Category::Model)
            } else if *service {
                Some(Category::Service)
            } else if *mediator {
                Some(Category::Mediator)
            } else if *aggregator {
                Some(Category::Aggregator)
            } else if *handler {
                Some(Category::Handler)
            } else if *adapter {
                Some(Category::Adapter)
            } else if *server {
                Some(Category::Server)
            } else if *assembler {
                Some(Category::Assembler)
            } else {
                None
            },
        }
    }
}

} // verus!
