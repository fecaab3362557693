//! The instruction catalog: a closed set of operation kinds, each a
//! fixed-layout record of typed operands, dispatched through one exhaustive
//! match in the execution engine.

use vstd::prelude::*;

verus! {

/// A readable operand: a reference to a value already computed, either a
/// constant-pool entry or a register of the slot file.
#[derive(Clone, Copy, PartialEq, Eq, Structural, Debug)]
pub enum Readable {
    /// An index into the constant pool.
    Const(u32),
    /// A register of the slot file.
    Reg(u32),
}

/// A writable operand: the destination that receives an instruction's
/// result — a register, or the innermost content-joining buffer.
#[derive(Clone, Copy, PartialEq, Eq, Structural, Debug)]
pub enum Writable {
    /// A register of the slot file.
    Reg(u32),
    /// The accumulation buffer of the scope being executed.
    Joined,
}

/// Identifies an access path (a resolved lvalue) in the access pool.
#[derive(Clone, Copy, PartialEq, Eq, Structural, Debug)]
pub struct AccessId(pub u32);

/// Identifies a closure template in the closure pool.
#[derive(Clone, Copy, PartialEq, Eq, Structural, Debug)]
pub struct ClosureId(pub u32);

/// Identifies a label string in the label pool.
#[derive(Clone, Copy, PartialEq, Eq, Structural, Debug)]
pub struct LabelId(pub u32);

/// Identifies a module descriptor in the module pool.
#[derive(Clone, Copy, PartialEq, Eq, Structural, Debug)]
pub struct ModuleId(pub u32);

/// Identifies a destructuring pattern in the pattern pool.
#[derive(Clone, Copy, PartialEq, Eq, Structural, Debug)]
pub struct PatternId(pub u32);

/// Identifies a source-span record in the span pool.
#[derive(Clone, Copy, PartialEq, Eq, Structural, Debug)]
pub struct SpanId(pub u32);

/// Identifies a string in the string pool.
#[derive(Clone, Copy, PartialEq, Eq, Structural, Debug)]
pub struct StringId(pub u32);

/// A jump target: a position inside the currently active scope. Targets
/// are scope-relative, never global; the value `len` (one past the last
/// instruction of the scope) means "fall off the end of the scope".
#[derive(Clone, Copy, PartialEq, Eq, Structural, Debug)]
pub struct Pointer(pub u32);

/// One instruction of the flat program.
#[derive(Clone, Copy, PartialEq, Eq, Structural, Debug)]
pub enum Opcode {
    /// Adds two values together.
    Add { lhs: Readable, rhs: Readable, out: Writable },
    /// Subtracts two values.
    Sub { lhs: Readable, rhs: Readable, out: Writable },
    /// Multiplies two values.
    Mul { lhs: Readable, rhs: Readable, out: Writable },
    /// Divides two values.
    Div { lhs: Readable, rhs: Readable, out: Writable },
    /// Negates a value.
    Neg { value: Readable, out: Writable },
    /// Positivizes a value.
    Pos { value: Readable, out: Writable },
    /// Logical not.
    Not { value: Readable, out: Writable },
    /// Greater than.
    Gt { lhs: Readable, rhs: Readable, out: Writable },
    /// Greater than or equal to.
    Geq { lhs: Readable, rhs: Readable, out: Writable },
    /// Less than.
    Lt { lhs: Readable, rhs: Readable, out: Writable },
    /// Less than or equal to.
    Leq { lhs: Readable, rhs: Readable, out: Writable },
    /// Equal to.
    Eq { lhs: Readable, rhs: Readable, out: Writable },
    /// Not equal to.
    Neq { lhs: Readable, rhs: Readable, out: Writable },
    /// Whether the left-hand side is in the right-hand side.
    In { lhs: Readable, rhs: Readable, out: Writable },
    /// Whether the left-hand side is not in the right-hand side.
    NotIn { lhs: Readable, rhs: Readable, out: Writable },
    /// Logical and (no short-circuit: both operands are already computed).
    And { lhs: Readable, rhs: Readable, out: Writable },
    /// Logical or (no short-circuit: both operands are already computed).
    Or { lhs: Readable, rhs: Readable, out: Writable },
    /// Copies a value.
    CopyIsr { value: Readable, out: Writable },
    /// Reads through an access path.
    ReadAccess { access: AccessId, out: Writable },
    /// Produces the `none` value.
    NoneVal { out: Writable },
    /// Produces the `auto` value.
    AutoVal { out: Writable },
    /// Assigns to an access path.
    Assign { value: Readable, out: AccessId },
    /// Reads the path, adds, and writes back; `lhs_span` attributes
    /// target-side errors separately from value-side errors.
    AddAssign { value: Readable, lhs_span: SpanId, out: AccessId },
    /// Reads the path, subtracts, and writes back.
    SubAssign { value: Readable, lhs_span: SpanId, out: AccessId },
    /// Reads the path, multiplies, and writes back.
    MulAssign { value: Readable, lhs_span: SpanId, out: AccessId },
    /// Reads the path, divides, and writes back.
    DivAssign { value: Readable, lhs_span: SpanId, out: AccessId },
    /// Binds a structured pattern against a value.
    Destructure { value: Readable, out: PatternId },
    /// Creates and applies a new set rule.
    SetRule { target: Readable, args: Readable },
    /// Creates and applies a new show rule.
    Show { selector: Option<Readable>, transform: Readable, selector_span: SpanId },
    /// Creates and applies a new show-set rule.
    ShowSet {
        selector: Option<Readable>,
        target: Readable,
        args: Readable,
        selector_span: SpanId,
    },
    /// Wraps an instantiated closure so that its evaluation is deferred
    /// until a context-dependent consumer forces it.
    Contextual { closure: Readable, out: Writable },
    /// Instantiates a module, exposing its top-level bindings.
    InstantiateModule { path: Readable, module: ModuleId, out: Writable },
    /// Includes another unit's produced content.
    Include { path: Readable, out: Writable },
    /// Instantiates a closure, capturing variables and parameter defaults
    /// at instantiation time.
    Instantiate { closure: ClosureId, out: Writable },
    /// Calls a callable reached by an access path.
    Call {
        closure: AccessId,
        args: Readable,
        math: bool,
        trailing_comma: bool,
        callee_span: SpanId,
        out: Writable,
    },
    /// Accesses a field through an access path.
    Field { access: AccessId, out: Writable },
    /// Enters a new while-loop scope of `len` instructions.
    While { len: u32, content: bool, out: Writable },
    /// Enters a new iterator scope of `len` instructions over `iterable`.
    Iter { len: u32, iterable: Readable, content: bool, out: Writable },
    /// Writes the next element of the innermost attached iterator, or
    /// exits the iterator scope cleanly when it is exhausted.
    Next { out: Writable },
    /// Continues a loop.
    Continue,
    /// Breaks out of a loop.
    Break,
    /// Returns from a function.
    Return,
    /// Returns a value from a function.
    ReturnVal { value: Readable },
    /// Allocates a new array; `capacity` is a hint, not a bound.
    AllocArray { capacity: u32, out: Writable },
    /// Pushes a value onto the array held in `out`.
    Push { value: Readable, out: Writable },
    /// Allocates a new dictionary; `capacity` is a hint, not a bound.
    AllocDict { capacity: u32, out: Writable },
    /// Inserts a keyed value into the dictionary held in `out`.
    Insert { key: Readable, value: Readable, out: Writable },
    /// Allocates a new argument set; `capacity` is a hint, not a bound.
    AllocArgs { capacity: u32, out: Writable },
    /// Pushes a positional value into the argument set held in `out`.
    PushArg { value: Readable, value_span: SpanId, out: Writable },
    /// Inserts a named value into the argument set held in `out`.
    InsertArg { key: StringId, value: Readable, value_span: SpanId, out: Writable },
    /// Spreads a value into the argument set held in `out`.
    SpreadArg { value: Readable, value_span: SpanId, out: Writable },
    /// Spreads a value into the array or dictionary held in `out`.
    Spread { value: Readable, out: Writable },
    /// Enters a new scope of `len` instructions with optional joining.
    Enter { len: u32, content: bool, out: Writable },
    /// Records a named position inside the current scope.
    PointerMarker { marker: Pointer },
    /// Jumps to a position inside the current scope.
    Jump { instruction: Pointer },
    /// Jumps to the first instruction of the current scope.
    JumpTop,
    /// Jumps if the condition is true.
    JumpIf { condition: Readable, instruction: Pointer },
    /// Jumps if the condition is false.
    JumpIfNot { condition: Readable, instruction: Pointer },
    /// Branchless value choice: both operands are evaluated, the
    /// condition picks one; control flow is unaffected.
    Select { condition: Readable, true_: Readable, false_: Readable, out: Writable },
    /// Marks the start of one loop-body iteration, for runaway-loop
    /// detection against the engine's iteration budget.
    BeginIter,
    /// Builds a delimited math node.
    Delimited { left: Readable, body: Readable, right: Readable, out: Writable },
    /// Builds an attachment math node (base with top/bottom supplements).
    Attach { base: Readable, top: Option<Readable>, bottom: Option<Readable>, out: Writable },
    /// Builds a fraction math node.
    Frac { numerator: Readable, denominator: Readable, out: Writable },
    /// Builds a root math node.
    Root { degree: Option<Readable>, radicand: Readable, out: Writable },
    /// Builds a reference node with a supplement.
    Ref { label: LabelId, supplement: Readable, out: Writable },
    /// Makes a value strong.
    Strong { value: Readable, out: Writable },
    /// Makes a value emphasized.
    Emph { value: Readable, out: Writable },
    /// Makes a value into a heading of the given level (one-based).
    Heading { value: Readable, level: u16, out: Writable },
    /// Makes a list item.
    ListItem { value: Readable, out: Writable },
    /// Makes an enum item with an optional explicit number.
    EnumItem { value: Readable, number: Option<u32>, out: Writable },
    /// Makes a term item: a term and its description.
    TermItem { term: Readable, description: Readable, out: Writable },
    /// Makes an equation, inline or block.
    Equation { value: Readable, block: bool, out: Writable },
}

} // verus!
