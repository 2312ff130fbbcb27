//! Values that cross the boundary between a page and the debugger.
use vstd::prelude::*;

verus! {

/// Identifies one browsing context (a page's top-level or framed execution unit).
#[derive(Clone, Copy, Debug, PartialEq, Eq, Structural)]
pub struct PipelineId(pub u64);

/// The kind of a DOM node.
#[derive(Clone, Copy, Debug, PartialEq, Eq, Structural)]
pub enum NodeKind {
    Document,
    Element,
    Text,
    Comment,
}

/// One attribute of an element, as a (name, value) pair.
#[derive(Debug)]
pub struct Attribute {
    pub name: String,
    pub value: String,
}

impl Attribute {
    pub fn duplicate(&self) -> (r: Attribute)
        ensures
            r == *self,
    {
        Attribute { name: self.name.clone(), value: self.value.clone() }
    }
}

/// Copies a list of attributes, keeping their order.
pub fn copy_attributes(attrs: &Vec<Attribute>) -> (r: Vec<Attribute>)
    ensures
        r@ == attrs@,
{
    let mut r: Vec<Attribute> = Vec::new();
    let mut i: usize = 0;
    while i < attrs.len()
        invariant
            i <= attrs.len(),
            r@ == attrs@.subrange(0, i as int),
        decreases attrs.len() - i,
    {
        r.push(attrs[i].duplicate());
        i = i + 1;
    }
    assert(r@ =~= attrs@);
    r
}

/// The errors that a reply can carry.
#[derive(Debug)]
pub enum DevtoolsError {
    /// The pipeline or the node identifier does not resolve (any more).
    NotFound,
    /// Layout was asked of a node that is not an element.
    NotAnElement,
    /// The page has no active document yet.
    PageNotReady,
    /// The evaluation produced a value outside the reply taxonomy.
    Unimplemented,
    /// The evaluated script threw; carries the engine's message.
    ScriptError(String),
}

/// A value produced by the page's script engine, as the engine reports its type.
/// A number is held as the bit pattern of an IEEE-754 binary64 value.
#[derive(Debug)]
pub enum ScriptValue {
    Undefined,
    Boolean(bool),
    Number(u64),
    String(String),
    Object,
    Null,
}

/// The closed value taxonomy of a script evaluation reply.
/// A number is held as the bit pattern of an IEEE-754 binary64 value.
#[derive(Debug)]
pub enum EvaluationResult {
    Void,
    Boolean(bool),
    Number(u64),
    String(String),
    Error(DevtoolsError),
}

} // verus!
