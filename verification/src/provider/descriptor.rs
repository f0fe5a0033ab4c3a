use vstd::prelude::*;

verus! {

/// The identity of a data type. Two descriptors are equal exactly when they
/// denote the same type; the container keys everything it holds by them.
#[derive(Debug, PartialEq, Eq, Structural, Clone, Copy, Hash)]
pub struct TypeDescriptor {
    pub id: u64,
}

impl TypeDescriptor {
    /// The descriptor of the type with identity `id`.
    pub fn new(id: u64) -> (descriptor: Self)
        ensures
            descriptor.id == id,
    {
        TypeDescriptor { id }
    }
}

/// The declared shape of a function: the types it consumes, in order, the
/// types it produces, in order, and whether a trailing error channel follows
/// the produced values.
pub struct Signature {
    pub inputs: Vec<TypeDescriptor>,
    pub outputs: Vec<TypeDescriptor>,
    pub fallible: bool,
}

impl Signature {
    /// The shape with the given inputs and outputs, with or without an
    /// error channel.
    pub fn new(inputs: Vec<TypeDescriptor>, outputs: Vec<TypeDescriptor>, fallible: bool) -> (signature: Self)
        ensures
            signature.inputs == inputs,
            signature.outputs == outputs,
            signature.fallible == fallible,
    {
        Signature { inputs, outputs, fallible }
    }

    /// The shape of a function with two outputs: one value of type `ty`,
    /// followed by the error channel.
    pub open spec fn returns_one(&self, ty: TypeDescriptor) -> bool {
        self.fallible && self.outputs@ == seq![ty]
    }

    /// The shape of a function whose only output is the error channel.
    pub open spec fn returns_nothing(&self) -> bool {
        self.fallible && self.outputs@.len() == 0
    }

    /// Whether the function has two outputs: one value of type `ty`,
    /// followed by the error channel.
    pub fn yields_one(&self, ty: TypeDescriptor) -> (matches: bool)
        ensures
            matches == self.returns_one(ty),
    {
        let matches = self.fallible && self.outputs.len() == 1 && self.outputs[0] == ty;
        proof {
            if matches {
                assert(self.outputs@ =~= seq![ty]);
            }
        }
        matches
    }

    /// Whether the function's only output is the error channel.
    pub fn yields_nothing(&self) -> (matches: bool)
        ensures
            matches == self.returns_nothing(),
    {
        self.fallible && self.outputs.len() == 0
    }
}

} // verus!
