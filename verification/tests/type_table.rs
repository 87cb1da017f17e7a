use il2cpp_runtime::error::Il2CppError;
use il2cpp_runtime::handles::Il2CppClass;
use il2cpp_runtime::type_table::{
    build_type_table, get_cached_class, get_type_table, qualified_type_name, ClassIdentity,
    ScannedClass, TypeTable,
};

fn identity(namespace: &str, name: &str) -> Option<ClassIdentity> {
    Some(ClassIdentity { namespace: namespace.to_string(), name: name.to_string() })
}

#[test]
fn lookup_without_table_fails() {
    assert_eq!(get_cached_class(None, "System.Int32"), Err(Il2CppError::TypeTableError));
    assert!(matches!(get_type_table(None), Err(Il2CppError::TypeTableError)));
}

#[test]
fn type_table_is_returned_once_built() {
    let table = TypeTable::new();
    assert!(get_type_table(Some(&table)).is_ok());
}

#[test]
fn insert_replaces_the_class_under_a_name() {
    let mut table = TypeTable::new();
    assert!(table.is_empty());
    table.insert("Player".to_string(), Il2CppClass(1), None);
    table.insert("Enemy".to_string(), Il2CppClass(2), None);
    table.insert("Player".to_string(), Il2CppClass(3), None);
    assert_eq!(table.len(), 2);
    assert_eq!(get_cached_class(Some(&table), "Player"), Ok(Il2CppClass(3)));
    assert_eq!(get_cached_class(Some(&table), "Enemy"), Ok(Il2CppClass(2)));
}

#[test]
fn dotted_key_needs_matching_identity_for_a_direct_hit() {
    let mut table = TypeTable::new();
    table.insert("Game.Player".to_string(), Il2CppClass(10), identity("Game", "Player"));
    assert_eq!(get_cached_class(Some(&table), "Game.Player"), Ok(Il2CppClass(10)));
}

#[test]
fn dotted_key_falls_back_to_the_unique_identity() {
    let mut table = TypeTable::new();
    // Filed under a name that its identity does not spell.
    table.insert("Game.Game.Player".to_string(), Il2CppClass(10), identity("Game", "Player"));
    table.insert("Game.Enemy".to_string(), Il2CppClass(11), identity("Game", "Enemy"));
    assert_eq!(get_cached_class(Some(&table), "Game.Player"), Ok(Il2CppClass(10)));
}

#[test]
fn direct_hit_with_other_identity_is_not_taken() {
    let mut table = TypeTable::new();
    table.insert("A.B".to_string(), Il2CppClass(1), identity("X", "Y"));
    table.insert("C.A.B".to_string(), Il2CppClass(2), identity("A", "B"));
    assert_eq!(get_cached_class(Some(&table), "A.B"), Ok(Il2CppClass(2)));
}

#[test]
fn failed_identity_read_does_not_match() {
    let mut table = TypeTable::new();
    table.insert("A.B".to_string(), Il2CppClass(1), None);
    // no identity matches, the short name "B" is unique
    assert_eq!(get_cached_class(Some(&table), "A.B"), Ok(Il2CppClass(1)));
}

#[test]
fn ambiguous_identity_falls_back_to_short_name() {
    let mut table = TypeTable::new();
    table.insert("X.Item".to_string(), Il2CppClass(1), identity("Game", "Item"));
    table.insert("Y.Thing".to_string(), Il2CppClass(2), identity("Game", "Item"));
    assert_eq!(get_cached_class(Some(&table), "Game.Item"), Ok(Il2CppClass(1)));
}

#[test]
fn short_name_finds_the_only_class_with_that_last_segment() {
    let mut table = TypeTable::new();
    table.insert("UnityEngine.Transform".to_string(), Il2CppClass(5), identity("UnityEngine", "Transform"));
    table.insert("UnityEngine.GameObject".to_string(), Il2CppClass(6), identity("UnityEngine", "GameObject"));
    assert_eq!(get_cached_class(Some(&table), "Transform"), Ok(Il2CppClass(5)));
    assert_eq!(get_cached_class(Some(&table), "Other.Transform"), Ok(Il2CppClass(5)));
}

#[test]
fn ambiguous_short_name_is_an_error_with_the_key() {
    let mut table = TypeTable::new();
    table.insert("A.Item".to_string(), Il2CppClass(1), identity("A", "Item"));
    table.insert("B.Item".to_string(), Il2CppClass(2), identity("B", "Item"));
    assert_eq!(
        get_cached_class(Some(&table), "Item"),
        Err(Il2CppError::CachedClassError("Item".to_string()))
    );
    assert_eq!(get_cached_class(Some(&table), "A.Item"), Ok(Il2CppClass(1)));
}

#[test]
fn missing_class_is_an_error_with_the_key() {
    let mut table = TypeTable::new();
    table.insert("A.Item".to_string(), Il2CppClass(1), identity("A", "Item"));
    assert_eq!(
        get_cached_class(Some(&table), "Game.Missing"),
        Err(Il2CppError::CachedClassError("Game.Missing".to_string()))
    );
}

#[test]
fn qualified_names_join_namespace_and_name() {
    assert_eq!(qualified_type_name("System", "String"), "System.String");
    assert_eq!(qualified_type_name("", "Module"), "Module");
}

#[test]
fn building_from_an_empty_scan_fails() {
    assert_eq!(
        build_type_table(&Vec::new()).err(),
        Some(Il2CppError::RuntimeStageFailure(
            "type table remained empty after metadata scan".to_string()
        ))
    );
}

#[test]
fn building_files_each_class_under_its_qualified_name() {
    let scanned = vec![
        ScannedClass {
            namespace: "System".to_string(),
            by_value_name: "String".to_string(),
            class: Il2CppClass(100),
            identity: identity("System", "String"),
        },
        ScannedClass {
            namespace: "".to_string(),
            by_value_name: "Module".to_string(),
            class: Il2CppClass(200),
            identity: identity("", "Module"),
        },
    ];
    let table = build_type_table(&scanned).unwrap();
    assert_eq!(table.len(), 2);
    assert_eq!(get_cached_class(Some(&table), "System.String"), Ok(Il2CppClass(100)));
    assert_eq!(get_cached_class(Some(&table), "Module"), Ok(Il2CppClass(200)));
    assert_eq!(get_cached_class(Some(&table), "String"), Ok(Il2CppClass(100)));
}
