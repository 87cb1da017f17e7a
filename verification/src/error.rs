use vstd::prelude::*;

verus! {

/// Errors reported by the runtime binding.
#[derive(Debug, Clone, PartialEq, Eq)]
pub enum Il2CppError {
    /// The type table has not been built yet.
    TypeTableError,
    /// No class could be found for the given key.
    CachedClassError(String),
    /// A stage of the runtime initialisation failed.
    RuntimeStageFailure(String),
    /// A null object was used.
    NullPointerDereference,
    /// The first method with the requested name has another number of parameters.
    ArgCountMismatch { method: String, actual: usize, expected: usize },
    /// The first method with the requested name has another parameter type.
    ArgTypeMismatch { method: String, index: usize, expected: String, actual: String },
    /// No method with the requested name exists.
    MethodNotFound(String),
    /// Neither the type nor its base type declares the field.
    FieldNotFound { field_name: String, declaring_type: String },
}

} // verus!

verus! {

/// The mathematical value of an [`Il2CppError`]: its strings taken as characters.
pub enum Il2CppErrorView {
    TypeTableError,
    CachedClassError(Seq<char>),
    RuntimeStageFailure(Seq<char>),
    NullPointerDereference,
    ArgCountMismatch { method: Seq<char>, actual: nat, expected: nat },
    ArgTypeMismatch { method: Seq<char>, index: nat, expected: Seq<char>, actual: Seq<char> },
    MethodNotFound(Seq<char>),
    FieldNotFound { field_name: Seq<char>, declaring_type: Seq<char> },
}

impl View for Il2CppError {
    type V = Il2CppErrorView;

    open spec fn view(&self) -> Il2CppErrorView {
        match self {
            Il2CppError::TypeTableError => Il2CppErrorView::TypeTableError,
            Il2CppError::CachedClassError(s) => Il2CppErrorView::CachedClassError(s@),
            Il2CppError::RuntimeStageFailure(s) => Il2CppErrorView::RuntimeStageFailure(s@),
            Il2CppError::NullPointerDereference => Il2CppErrorView::NullPointerDereference,
            Il2CppError::ArgCountMismatch { method, actual, expected } =>
                Il2CppErrorView::ArgCountMismatch {
                    method: method@,
                    actual: *actual as nat,
                    expected: *expected as nat,
                },
            Il2CppError::ArgTypeMismatch { method, index, expected, actual } =>
                Il2CppErrorView::ArgTypeMismatch {
                    method: method@,
                    index: *index as nat,
                    expected: expected@,
                    actual: actual@,
                },
            Il2CppError::MethodNotFound(s) => Il2CppErrorView::MethodNotFound(s@),
            Il2CppError::FieldNotFound { field_name, declaring_type } =>
                Il2CppErrorView::FieldNotFound {
                    field_name: field_name@,
                    declaring_type: declaring_type@,
                },
        }
    }
}

} // verus!
