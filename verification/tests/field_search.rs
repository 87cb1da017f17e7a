use il2cpp_runtime::error::Il2CppError;
use il2cpp_runtime::field::{FieldSearchAction, FieldSearchEvent};
use il2cpp_runtime::handles::{Il2CppField, Il2CppString, System_Reflection_FieldInfo, System_RuntimeType};

fn step(event: FieldSearchEvent) -> FieldSearchAction {
    System_RuntimeType::get_field("health", event)
}

#[test]
fn failure_to_create_the_name_ends_the_search() {
    match step(FieldSearchEvent::NameCreated(Err(Il2CppError::NullPointerDereference))) {
        FieldSearchAction::Finish(Err(Il2CppError::NullPointerDereference)) => {}
        _ => panic!("expected the error to end the search"),
    }
}

#[test]
fn created_name_queries_the_type_itself() {
    assert!(matches!(step(FieldSearchEvent::NameCreated(Ok(Il2CppString(8)))), FieldSearchAction::QueryOwnType));
}

#[test]
fn own_field_found_is_read() {
    match step(FieldSearchEvent::OwnField(Ok(System_Reflection_FieldInfo(0x40)))) {
        FieldSearchAction::ReadField(info) => assert_eq!(info, System_Reflection_FieldInfo(0x40)),
        _ => panic!("expected the field to be read"),
    }
}

#[test]
fn own_field_null_or_failing_asks_for_the_base_type() {
    assert!(matches!(step(FieldSearchEvent::OwnField(Ok(System_Reflection_FieldInfo(0)))), FieldSearchAction::QueryBaseType));
    assert!(matches!(
        step(FieldSearchEvent::OwnField(Err(Il2CppError::NullPointerDereference))),
        FieldSearchAction::QueryBaseType
    ));
}

#[test]
fn base_type_failure_ends_the_search() {
    match step(FieldSearchEvent::BaseType(Err(Il2CppError::MethodNotFound("System.RuntimeType::get_BaseType".to_string())))) {
        FieldSearchAction::Finish(Err(Il2CppError::MethodNotFound(m))) => assert_eq!(m, "System.RuntimeType::get_BaseType"),
        _ => panic!("expected the error to end the search"),
    }
}

#[test]
fn base_type_is_queried_next() {
    match step(FieldSearchEvent::BaseType(Ok(System_RuntimeType(0x77)))) {
        FieldSearchAction::QueryBaseField(base) => assert_eq!(base, System_RuntimeType(0x77)),
        _ => panic!("expected the base type to be queried"),
    }
}

#[test]
fn base_field_found_is_read_else_the_name_is_read() {
    assert!(matches!(step(FieldSearchEvent::BaseField(Ok(System_Reflection_FieldInfo(5)))), FieldSearchAction::ReadField(System_Reflection_FieldInfo(5))));
    assert!(matches!(step(FieldSearchEvent::BaseField(Ok(System_Reflection_FieldInfo(0)))), FieldSearchAction::ReadTypeName));
    assert!(matches!(
        step(FieldSearchEvent::BaseField(Err(Il2CppError::NullPointerDereference))),
        FieldSearchAction::ReadTypeName
    ));
}

#[test]
fn read_field_ends_the_search() {
    match step(FieldSearchEvent::FieldRead(Il2CppField(0x99))) {
        FieldSearchAction::Finish(Ok(field)) => assert_eq!(field, Il2CppField(0x99)),
        _ => panic!("expected the field"),
    }
}

#[test]
fn missing_field_is_reported_with_both_names() {
    match step(FieldSearchEvent::TypeNameRead("Game.Player".to_string())) {
        FieldSearchAction::Finish(Err(e)) => assert_eq!(
            e,
            Il2CppError::FieldNotFound { field_name: "health".to_string(), declaring_type: "Game.Player".to_string() }
        ),
        _ => panic!("expected FieldNotFound"),
    }
}
