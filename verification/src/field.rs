use vstd::prelude::*;
use vstd::string::*;

use crate::error::{Il2CppError, Il2CppErrorView};
use crate::handles::{Il2CppField, Il2CppString, System_Reflection_FieldInfo, System_RuntimeType};

verus! {

/// What the runtime answered to the last request of a field search.
pub enum FieldSearchEvent {
    /// The managed string holding the field's name was created, or not.
    NameCreated(Result<Il2CppString, Il2CppError>),
    /// `GetField` on the type itself answered.
    OwnField(Result<System_Reflection_FieldInfo, Il2CppError>),
    /// `BaseType` answered.
    BaseType(Result<System_RuntimeType, Il2CppError>),
    /// `GetField` on the base type answered.
    BaseField(Result<System_Reflection_FieldInfo, Il2CppError>),
    /// The field handle was read out of the field info that was found.
    FieldRead(Il2CppField),
    /// The full name of the type searched was read.
    TypeNameRead(String),
}

/// What a field search does next.
pub enum FieldSearchAction {
    /// Call `GetField` with the created name on the type itself.
    QueryOwnType,
    /// Ask the type for its base type.
    QueryBaseType,
    /// Call `GetField` with the created name on this base type.
    QueryBaseField(System_RuntimeType),
    /// Read the field handle out of this (non-null) field info.
    ReadField(System_Reflection_FieldInfo),
    /// Read the full name of the type searched, to report that the field is missing.
    ReadTypeName,
    /// The search is over, with this result.
    Finish(Result<Il2CppField, Il2CppError>),
}

/// The field info that a `GetField` answer gives, if it names a field: only a
/// successful, non-null answer counts.
pub open spec fn found_info(answer: Result<System_Reflection_FieldInfo, Il2CppError>) -> Option<
    System_Reflection_FieldInfo,
> {
    match answer {
        Ok(info) => if info.0 != 0 {
            Some(info)
        } else {
            None
        },
        Err(_) => None,
    }
}

impl System_RuntimeType {
    /// The step of the search for the field `name`: given what the runtime
    /// answered last, what to do next. The search creates the name, asks the
    /// type, then its base type; a failure to create the name or to get the
    /// base type ends it with that error, and when neither type has the field
    /// it ends with `FieldNotFound`.
    pub fn get_field(name: &str, event: FieldSearchEvent) -> (res: FieldSearchAction)
        ensures
            match event {
                FieldSearchEvent::NameCreated(Err(e)) => res matches FieldSearchAction::Finish(
                    Err(e2),
                ) && e2@ == e@,
                FieldSearchEvent::NameCreated(Ok(_)) => res is QueryOwnType,
                FieldSearchEvent::OwnField(answer) => match found_info(answer) {
                    Some(info) => res == FieldSearchAction::ReadField(info),
                    None => res is QueryBaseType,
                },
                FieldSearchEvent::BaseType(Err(e)) => res matches FieldSearchAction::Finish(
                    Err(e2),
                ) && e2@ == e@,
                FieldSearchEvent::BaseType(Ok(base)) => res == FieldSearchAction::QueryBaseField(
                    base,
                ),
                FieldSearchEvent::BaseField(answer) => match found_info(answer) {
                    Some(info) => res == FieldSearchAction::ReadField(info),
                    None => res is ReadTypeName,
                },
                FieldSearchEvent::FieldRead(field) => res == FieldSearchAction::Finish(
                    Ok(field),
                ),
                FieldSearchEvent::TypeNameRead(full_name) => res matches FieldSearchAction::Finish(
                    Err(e),
                ) && e@ == Il2CppErrorView::FieldNotFound {
                    field_name: name@,
                    declaring_type: full_name@,
                },
            },
    {
        match event {
            FieldSearchEvent::NameCreated(Err(e)) => FieldSearchAction::Finish(Err(e)),
            FieldSearchEvent::NameCreated(Ok(_)) => FieldSearchAction::QueryOwnType,
            FieldSearchEvent::OwnField(Ok(info)) => {
                if info.0 != 0 {
                    FieldSearchAction::ReadField(info)
                } else {
                    FieldSearchAction::QueryBaseType
                }
            },
            FieldSearchEvent::OwnField(Err(_)) => FieldSearchAction::QueryBaseType,
            FieldSearchEvent::BaseType(Err(e)) => FieldSearchAction::Finish(Err(e)),
            FieldSearchEvent::BaseType(Ok(base)) => FieldSearchAction::QueryBaseField(base),
            FieldSearchEvent::BaseField(Ok(info)) => {
                if info.0 != 0 {
                    FieldSearchAction::ReadField(info)
                } else {
                    FieldSearchAction::ReadTypeName
                }
            },
            FieldSearchEvent::BaseField(Err(_)) => FieldSearchAction::ReadTypeName,
            FieldSearchEvent::FieldRead(field) => FieldSearchAction::Finish(Ok(field)),
            FieldSearchEvent::TypeNameRead(full_name) => FieldSearchAction::Finish(
                Err(
                    Il2CppError::FieldNotFound {
                        field_name: String::from_str(name),
                        declaring_type: full_name,
                    },
                ),
            ),
        }
    }
}

} // verus!
