//! Typed intermediate representation for compute kernels: element types,
//! constant construction, vectorized item descriptors, operand bindings and
//! the kernel definition envelope.

use vstd::prelude::*;
use vstd::string::StringExecFns;

verus! {

/// Where an operand lives: global device memory, or on-chip memory scoped
/// to one execution unit (cube).
#[derive(Debug, PartialEq, Eq, Clone, Copy, Structural)]
pub enum Location {
    Storage,
    Cube,
}

/// How a kernel may access an operand.
#[derive(Debug, PartialEq, Eq, Clone, Copy, Structural)]
pub enum Visibility {
    Read,
    ReadWrite,
}

/// The floating-point element kinds a kernel may use.
#[derive(Debug, Clone, PartialEq, Eq, Copy, Hash, PartialOrd, Ord, Structural)]
pub enum FloatKind {
    F16,
    BF16,
    F32,
    F64,
}

/// The signed integer element kinds a kernel may use.
#[derive(Debug, Clone, PartialEq, Eq, Copy, Hash, PartialOrd, Ord, Structural)]
pub enum IntKind {
    I32,
    I64,
}

/// A tagged element type.
#[derive(Debug, Clone, PartialEq, Eq, Copy, Hash, PartialOrd, Ord, Structural)]
pub enum Elem {
    Float(FloatKind),
    Int(IntKind),
    UInt,
    Bool,
}

/// A concrete constant literal, tagged so that it mirrors [`Elem`].
///
/// A floating-point constant carries its numeric value as an exact integer:
/// every constant built by this crate arises from an integer or boolean host
/// value, and the device-side literal is that integer converted to the float
/// kind. Constants built directly from a host floating-point value live
/// outside this crate, next to the code generator.
#[derive(Debug, Clone, PartialEq, Eq, Copy, Structural)]
pub enum ConstantScalarValue {
    Float(i128, FloatKind),
    Int(i64, IntKind),
    UInt(u64),
    Bool(bool),
}

impl ConstantScalarValue {
    /// The element tag this constant carries.
    pub open spec fn spec_elem(self) -> Elem {
        match self {
            ConstantScalarValue::Float(_, kind) => Elem::Float(kind),
            ConstantScalarValue::Int(_, kind) => Elem::Int(kind),
            ConstantScalarValue::UInt(_) => Elem::UInt,
            ConstantScalarValue::Bool(_) => Elem::Bool,
        }
    }

    /// Fetch the element tag of the constant.
    pub fn elem(&self) -> (e: Elem)
        ensures
            e == self.spec_elem(),
    {
        match self {
            ConstantScalarValue::Float(_, kind) => Elem::Float(*kind),
            ConstantScalarValue::Int(_, kind) => Elem::Int(*kind),
            ConstantScalarValue::UInt(_) => Elem::UInt,
            ConstantScalarValue::Bool(_) => Elem::Bool,
        }
    }
}

/// A value the kernel body may refer to. Launch planning only ever builds
/// constant scalars; the rest of the instruction set stays with the code
/// generator and is opaque to this crate.
#[derive(Debug, Clone, PartialEq, Eq, Copy, Structural)]
pub enum Variable {
    ConstantScalar(ConstantScalarValue),
}

impl Elem {
    /// The constant that `self` yields for a signed-integer host value.
    pub open spec fn spec_constant_from_i64(self, val: i64) -> ConstantScalarValue {
        match self {
            Elem::Float(kind) => ConstantScalarValue::Float(val as i128, kind),
            Elem::Int(kind) => ConstantScalarValue::Int(val, kind),
            Elem::UInt => ConstantScalarValue::UInt(val as u64),
            Elem::Bool => ConstantScalarValue::Bool(val > 0),
        }
    }

    /// The constant that `self` yields for an unsigned-integer host value.
    pub open spec fn spec_constant_from_u64(self, val: u64) -> ConstantScalarValue {
        match self {
            Elem::Float(kind) => ConstantScalarValue::Float(val as i128, kind),
            Elem::Int(kind) => ConstantScalarValue::Int(val as i64, kind),
            Elem::UInt => ConstantScalarValue::UInt(val),
            Elem::Bool => ConstantScalarValue::Bool(val > 0),
        }
    }

    /// The constant that `self` yields for a boolean host value.
    pub open spec fn spec_constant_from_bool(self, val: bool) -> ConstantScalarValue {
        match self {
            Elem::Float(kind) => ConstantScalarValue::Float(if val { 1 } else { 0 }, kind),
            Elem::Int(kind) => ConstantScalarValue::Int(if val { 1 } else { 0 }, kind),
            Elem::UInt => ConstantScalarValue::UInt(if val { 1 } else { 0 }),
            Elem::Bool => ConstantScalarValue::Bool(val),
        }
    }

    /// The display rendering of an element: kind detail deliberately
    /// collapses to the coarse category.
    pub open spec fn spec_display(self) -> Seq<char> {
        match self {
            Elem::Float(_) => "float"@,
            Elem::Int(_) => "int"@,
            Elem::UInt => "uint"@,
            Elem::Bool => "bool"@,
        }
    }

    /// Render the element's coarse category for humans.
    pub fn display_string(&self) -> (r: String)
        ensures
            r@ == self.spec_display(),
    {
        match self {
            Elem::Float(_) => String::from_str("float"),
            Elem::Int(_) => String::from_str("int"),
            Elem::UInt => String::from_str("uint"),
            Elem::Bool => String::from_str("bool"),
        }
    }

    /// Create a constant scalar from a signed integer.
    ///
    /// The output carries `self`'s element tag, never the host literal's
    /// native type; numeric conversions truncate C-style, and a value is
    /// `true` exactly when it is positive.
    pub fn constant_from_i64(&self, val: i64) -> (r: Variable)
        ensures
            r == Variable::ConstantScalar(self.spec_constant_from_i64(val)),
            r matches Variable::ConstantScalar(c) ==> c.spec_elem() == *self,
    {
        Variable::ConstantScalar(match self {
            Elem::Float(kind) => ConstantScalarValue::Float(val as i128, *kind),
            Elem::Int(kind) => ConstantScalarValue::Int(val, *kind),
            Elem::UInt => ConstantScalarValue::UInt(val as u64),
            Elem::Bool => ConstantScalarValue::Bool(val > 0),
        })
    }

    /// Create a constant scalar from an unsigned integer.
    ///
    /// The output carries `self`'s element tag, never the host literal's
    /// native type.
    pub fn constant_from_u64(&self, val: u64) -> (r: Variable)
        ensures
            r == Variable::ConstantScalar(self.spec_constant_from_u64(val)),
            r matches Variable::ConstantScalar(c) ==> c.spec_elem() == *self,
    {
        Variable::ConstantScalar(match self {
            Elem::Float(kind) => ConstantScalarValue::Float(val as i128, *kind),
            Elem::Int(kind) => ConstantScalarValue::Int(val as i64, *kind),
            Elem::UInt => ConstantScalarValue::UInt(val),
            Elem::Bool => ConstantScalarValue::Bool(val > 0),
        })
    }

    /// Create a constant scalar from a boolean.
    ///
    /// The output carries `self`'s element tag, never the host literal's
    /// native type; `true` maps to one and `false` to zero.
    pub fn constant_from_bool(&self, val: bool) -> (r: Variable)
        ensures
            r == Variable::ConstantScalar(self.spec_constant_from_bool(val)),
            r matches Variable::ConstantScalar(c) ==> c.spec_elem() == *self,
    {
        Variable::ConstantScalar(match self {
            Elem::Float(kind) => ConstantScalarValue::Float(if val { 1 } else { 0 }, *kind),
            Elem::Int(kind) => ConstantScalarValue::Int(if val { 1 } else { 0 }, *kind),
            Elem::UInt => ConstantScalarValue::UInt(if val { 1 } else { 0 }),
            Elem::Bool => ConstantScalarValue::Bool(val),
        })
    }
}

/// Number of scalar lanes packed per memory access or instruction.
pub type Vectorization = u8;

/// An element type together with its vectorization width.
#[derive(Debug, Clone, PartialEq, Eq, Copy, Hash, Structural)]
pub struct Item {
    pub elem: Elem,
    pub vectorization: Vectorization,
}

impl Item {
    /// Fetch the elem of the item.
    pub fn elem(&self) -> (e: Elem)
        ensures
            e == self.elem,
    {
        self.elem
    }

    /// Create a new item without vectorization.
    pub fn new(elem: Elem) -> (r: Self)
        ensures
            r == (Item { elem, vectorization: 1u8 }),
    {
        Self { elem, vectorization: 1 }
    }

    /// Create a new item with an explicit vectorization width.
    pub fn vectorized(elem: Elem, vectorization: Vectorization) -> (r: Self)
        requires
            vectorization >= 1,
        ensures
            r == (Item { elem, vectorization }),
    {
        Self { elem, vectorization }
    }
}

impl From<Elem> for Item {
    /// An element alone stands for a scalar (unvectorized) item.
    fn from(val: Elem) -> (r: Self) {
        Item::new(val)
    }
}

impl vstd::std_specs::convert::FromSpecImpl<Elem> for Item {
    open spec fn obeys_from_spec() -> bool {
        true
    }

    open spec fn from_spec(val: Elem) -> Self {
        Item { elem: val, vectorization: 1u8 }
    }
}

/// One operand of a kernel: where it lives, how the kernel may access it,
/// its typed item, and its size in items where that is fixed at definition
/// time (`None` means dynamically sized at launch).
#[derive(Debug, PartialEq, Eq, Clone)]
pub struct Binding {
    pub location: Location,
    pub visibility: Visibility,
    pub item: Item,
    pub size: Option<usize>,
}

/// Approximate subgroup width of current hardware, used as the default
/// thread-block edge until a measured value is injected.
pub const SUBCUBE_DIM_APPROX: u32 = 16;

/// Thread-block dimensions of a dispatch.
#[derive(Debug, PartialEq, Eq, Clone, Copy, Hash, Structural)]
pub struct CubeDim {
    pub x: u32,
    pub y: u32,
    pub z: u32,
}

impl CubeDim {
    /// Create block dimensions from explicit per-axis extents.
    pub fn new(x: u32, y: u32, z: u32) -> (r: Self)
        ensures
            r == (CubeDim { x, y, z }),
    {
        Self { x, y, z }
    }
}

impl Default for CubeDim {
    /// A square block derived from the approximate subgroup width, one deep.
    fn default() -> (r: Self)
        ensures
            r == (CubeDim { x: SUBCUBE_DIM_APPROX, y: SUBCUBE_DIM_APPROX, z: 1u32 }),
    {
        Self { x: SUBCUBE_DIM_APPROX, y: SUBCUBE_DIM_APPROX, z: 1 }
    }
}

/// The instruction body of a kernel. Code generation consumes it; launch
/// planning carries it through untouched, so only its nesting depth is
/// modeled here.
#[derive(Debug, PartialEq, Eq, Clone, Copy, Structural)]
pub struct Scope {
    pub depth: u8,
}

/// A compiled kernel template: its operands in positional order, its block
/// dimensions and its body. Binding order is a positional contract —
/// argument order at every launch must match this order.
#[derive(Debug, PartialEq, Eq, Clone)]
pub struct KernelDefinition {
    pub inputs: Vec<Binding>,
    pub outputs: Vec<Binding>,
    pub named: Vec<(String, Binding)>,
    pub cube_dim: CubeDim,
    pub body: Scope,
}

/// The mathematical value of a [`KernelDefinition`]: every list as a
/// sequence and every name as a sequence of characters.
pub struct KernelDefinitionView {
    pub inputs: Seq<Binding>,
    pub outputs: Seq<Binding>,
    pub named: Seq<(Seq<char>, Binding)>,
    pub cube_dim: CubeDim,
    pub body: Scope,
}

impl View for KernelDefinition {
    type V = KernelDefinitionView;

    open spec fn view(&self) -> KernelDefinitionView {
        KernelDefinitionView {
            inputs: self.inputs@,
            outputs: self.outputs@,
            named: self.named@.map_values(|nb: (String, Binding)| (nb.0@, nb.1)),
            cube_dim: self.cube_dim,
            body: self.body,
        }
    }
}

} // verus!
