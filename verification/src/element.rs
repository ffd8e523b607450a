//! Tensor element encodings and the other small closed enumerations of the
//! library: the value types a tensor can hold, the compute backends, and the
//! accelerator that this build was compiled with.

use vstd::prelude::*;

verus! {

/// Accelerators a build can be compiled with.
#[derive(Debug, Copy, Clone, PartialEq, Eq, Structural)]
pub enum Accelerator {
    /// CuBLAS accelerated.
    CuBLAS,
    /// CLBlast accelerated.
    CLBlast,
    /// Metal accelerated.
    Metal,
    /// Cpu accelerated, with no accelerator behind it.
    Cpu,
}

/// The accelerator this build was compiled with. This build carries no
/// accelerator support, so the answer is always the plain CPU.
pub fn get_accelerator() -> (r: Accelerator)
    ensures
        r == Accelerator::Cpu,
{
    Accelerator::Cpu
}

/// Backend to use for a tensor.
#[derive(Debug, Copy, Clone, PartialEq, Eq, Structural)]
pub enum Backend {
    /// CPU backend.
    Cpu,
    /// GPU backend.
    Gpu,
    /// Multi-GPU backend.
    GpuSplit,
}

impl Default for Backend {
    /// The default backend is the CPU.
    fn default() -> (r: Self)
        ensures
            r == Backend::Cpu,
    {
        Backend::Cpu
    }
}

/// The type of a value in a tensor.
#[derive(Debug, Copy, Clone, PartialEq, Eq, Structural)]
pub enum Type {
    /// Quantized 4-bit (type 0).
    Q4_0,
    /// Quantized 4-bit (type 1).
    Q4_1,
    /// Quantized 5-bit (type 0).
    Q5_0,
    /// Quantized 5-bit (type 1).
    Q5_1,
    /// Quantized 8-bit (type 0).
    Q8_0,
    /// Quantized 8-bit (type 1).
    Q8_1,
    /// K-Quantized 2-bit.
    #[allow(non_camel_case_types)]
    Q2_K,
    /// K-Quantized 3-bit.
    #[allow(non_camel_case_types)]
    Q3_K,
    /// K-Quantized 4-bit.
    #[allow(non_camel_case_types)]
    Q4_K,
    /// K-Quantized 5-bit.
    #[allow(non_camel_case_types)]
    Q5_K,
    /// K-Quantized 6-bit.
    #[allow(non_camel_case_types)]
    Q6_K,
    /// Integer 32-bit.
    I32,
    /// Float 16-bit.
    F16,
    /// Float 32-bit.
    F32,
}

/// The type of a tensor element.
pub type ElementType = Type;

impl Default for Type {
    /// The default element type.
    fn default() -> (r: Self)
        ensures
            r == Type::Q4_0,
    {
        Type::Q4_0
    }
}

impl Type {
    /// Returns whether this type is quantized.
    pub fn is_quantized(&self) -> (r: bool)
        ensures
            r == !(self is I32 || self is F16 || self is F32),
    {
        match self {
            Type::Q4_0 => true,
            Type::Q4_1 => true,
            Type::Q5_0 => true,
            Type::Q5_1 => true,
            Type::Q8_0 => true,
            Type::Q8_1 => true,
            Type::Q2_K => true,
            Type::Q3_K => true,
            Type::Q4_K => true,
            Type::Q5_K => true,
            Type::Q6_K => true,
            Type::I32 => false,
            Type::F16 => false,
            Type::F32 => false,
        }
    }

    /// A short lower-case label for the type, such as a display would show.
    pub fn label(&self) -> (r: &'static str)
        ensures
            self is Q4_0 ==> r@ == "q4_0"@,
            self is Q4_1 ==> r@ == "q4_1"@,
            self is Q5_0 ==> r@ == "q5_0"@,
            self is Q5_1 ==> r@ == "q5_1"@,
            self is Q8_0 ==> r@ == "q8_0"@,
            self is Q8_1 ==> r@ == "q8_1"@,
            self is Q2_K ==> r@ == "q2_k"@,
            self is Q3_K ==> r@ == "q3_k"@,
            self is Q4_K ==> r@ == "q4_k"@,
            self is Q5_K ==> r@ == "q5_k"@,
            self is Q6_K ==> r@ == "q6_k"@,
            self is I32 ==> r@ == "i32"@,
            self is F16 ==> r@ == "f16"@,
            self is F32 ==> r@ == "f32"@,
    {
        match self {
            Type::Q4_0 => "q4_0",
            Type::Q4_1 => "q4_1",
            Type::Q5_0 => "q5_0",
            Type::Q5_1 => "q5_1",
            Type::Q8_0 => "q8_0",
            Type::Q8_1 => "q8_1",
            Type::Q2_K => "q2_k",
            Type::Q3_K => "q3_k",
            Type::Q4_K => "q4_k",
            Type::Q5_K => "q5_k",
            Type::Q6_K => "q6_k",
            Type::I32 => "i32",
            Type::F16 => "f16",
            Type::F32 => "f32",
        }
    }
}

/// The element types that the container formats can carry on disk, and so
/// the only types a destination tensor of the loader can have.
pub open spec fn is_loadable_type(t: Type) -> bool {
    t is F32 || t is F16 || t is Q4_0 || t is Q4_1
}

/// The on-disk size in bytes of one storage unit of `t`: one element for
/// the plain types, one block for the quantized ones.
pub open spec fn spec_type_size(t: Type) -> nat {
    match t {
        Type::F32 => 4,
        Type::F16 => 2,
        Type::Q4_0 => 20,
        Type::Q4_1 => 24,
        _ => 0,
    }
}

/// The number of elements one storage unit of `t` encodes.
pub open spec fn spec_blck_size(t: Type) -> nat {
    match t {
        Type::F32 => 1,
        Type::F16 => 1,
        Type::Q4_0 => 32,
        Type::Q4_1 => 32,
        _ => 0,
    }
}

/// The size of one storage unit of `t` as bytes.
pub fn type_size(t: Type) -> (r: usize)
    requires
        is_loadable_type(t),
    ensures
        r == spec_type_size(t),
{
    match t {
        Type::F32 => 4,
        Type::F16 => 2,
        Type::Q4_0 => 20,
        Type::Q4_1 => 24,
        _ => 0,
    }
}

/// The number of elements per storage unit of `t`. Only quantized types
/// group more than one element per unit.
pub fn blck_size(t: Type) -> (r: usize)
    requires
        is_loadable_type(t),
    ensures
        r == spec_blck_size(t),
{
    match t {
        Type::F32 => 1,
        Type::F16 => 1,
        Type::Q4_0 => 32,
        Type::Q4_1 => 32,
        _ => 1,
    }
}

/// The element type a record's declared `ftype` code stands for:
/// 0 is a 4-byte float, 1 a 2-byte half-float, 2 and 3 the two 4-bit
/// quantized block encodings. Every other code is unknown.
pub open spec fn spec_ftype_to_type(ftype: u32) -> Option<Type> {
    if ftype == 0 {
        Some(Type::F32)
    } else if ftype == 1 {
        Some(Type::F16)
    } else if ftype == 2 {
        Some(Type::Q4_0)
    } else if ftype == 3 {
        Some(Type::Q4_1)
    } else {
        None
    }
}

/// Map a record's `ftype` code to the element type it declares.
pub fn ftype_to_type(ftype: u32) -> (r: Option<Type>)
    ensures
        r == spec_ftype_to_type(ftype),
{
    if ftype == 0 {
        Some(Type::F32)
    } else if ftype == 1 {
        Some(Type::F16)
    } else if ftype == 2 {
        Some(Type::Q4_0)
    } else if ftype == 3 {
        Some(Type::Q4_1)
    } else {
        None
    }
}

} // verus!
