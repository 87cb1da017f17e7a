use vstd::prelude::*;

verus! {

/// Handle of an IL2CPP class (the address of its runtime structure).
#[derive(Debug, Clone, Copy, PartialEq, Eq, Structural)]
pub struct Il2CppClass(pub usize);

/// Handle of an IL2CPP assembly.
#[derive(Debug, Clone, Copy, PartialEq, Eq, Structural)]
pub struct Il2CppAssembly(pub usize);

/// Handle of an IL2CPP image.
#[derive(Debug, Clone, Copy, PartialEq, Eq, Structural)]
pub struct Il2CppImage(pub usize);

/// Handle of an IL2CPP field.
#[derive(Debug, Clone, Copy, PartialEq, Eq, Structural)]
pub struct Il2CppField(pub usize);

/// Handle of the IL2CPP application domain.
#[derive(Debug, Clone, Copy, PartialEq, Eq, Structural)]
pub struct Il2CppDomain(pub usize);

/// Handle of a managed `System.String` object.
#[derive(Debug, Clone, Copy, PartialEq, Eq, Structural)]
pub struct Il2CppString(pub usize);

/// Handle of a managed array.
#[derive(Debug, Clone, Copy, PartialEq, Eq, Structural)]
pub struct Il2CppArray(pub usize);

/// Handle of a managed `List<T>`.
#[derive(Debug, Clone, Copy, PartialEq, Eq, Structural)]
pub struct List(pub usize);

/// Handle of a managed `System.RuntimeType` object.
#[allow(non_camel_case_types)]
#[derive(Debug, Clone, Copy, PartialEq, Eq, Structural)]
pub struct System_RuntimeType(pub usize);

/// Handle of a managed `System.Reflection.FieldInfo` object.
#[allow(non_camel_case_types)]
#[derive(Debug, Clone, Copy, PartialEq, Eq, Structural)]
pub struct System_Reflection_FieldInfo(pub usize);

/// The value type `System.UInt32`.
#[allow(non_camel_case_types)]
#[derive(Debug, Clone, Copy)]
pub struct System_UInt32(pub u32);

/// The value type `System.Int32`.
#[allow(non_camel_case_types)]
#[derive(Debug, Clone, Copy)]
pub struct System_Int32(pub i32);

/// The value type `System.UInt64`.
#[allow(non_camel_case_types)]
#[derive(Debug, Clone, Copy)]
pub struct System_UInt64(pub u64);

/// The value type `System.Int64`.
#[allow(non_camel_case_types)]
#[derive(Debug, Clone, Copy)]
pub struct System_Int64(pub i64);

/// The value type `System.Boolean`.
#[allow(non_camel_case_types)]
#[derive(Debug, Clone, Copy)]
pub struct System_Boolean(pub bool);

} // verus!
