use vstd::prelude::*;

verus! {

/// The kind of component a generated file holds.
#[derive(Debug, PartialEq, Eq, Structural, Clone, Copy)]
pub enum Category {
    Service,
    Mediator,
    Aggregator,
    Handler,
    Adapter,
    Server,
    Protocol,
    Message,
    State,
    Contract,
    Model,
    Assembler,
}

impl Category {
    /// The lower-case name of the category, as it is shown to the user.
    pub open spec fn label(self) -> Seq<char> {
        match self {
            Category::Service => "service"@,
            Category::Mediator => "mediator"@,
            Category::Aggregator => "aggregator"@,
            Category::Handler => "handler"@,
            Category::Adapter => "adapter"@,
            Category::Server => "server"@,
            Category::Protocol => "protocol"@,
            Category::Message => "message"@,
            Category::State => "state"@,
            Category::Contract => "contract"@,
            Category::Model => "model"@,
            Category::Assembler => "assembler"@,
        }
    }

    /// The category's lower-case name.
    pub fn as_str(&self) -> (text: &'static str)
        ensures
            text@ == self.label(),
    {
        match self {
            Category::Service => "service",
            Category::Mediator => "mediator",
            Category::Aggregator => "aggregator",
            Category::Handler => "handler",
            Category::Adapter => "adapter",
            Category::Server => "server",
            Category::Protocol => "protocol",
            Category::Message => "message",
            Category::State => "state",
            Category::Contract => "contract",
            Category::Model => "model",
            Category::Assembler => "assembler",
        }
    }

    /// Renders the category as its lower-case name.
    pub fn to_string(&self) -> (text: String)
        ensures
            text@ == self.label(),
    {
        String::from_str(self.as_str())
    }
}

} // verus!
