use il2cpp_runtime::error::Il2CppError;
use il2cpp_runtime::handles::Il2CppClass;
use il2cpp_runtime::method::Il2CppMethod;
use il2cpp_runtime::types::{alias_of_name, Il2CppType};

fn ty(name: &str, class_type_name: &str) -> Il2CppType {
    Il2CppType {
        handle: 0x1000,
        name: name.to_string(),
        class: Il2CppClass(0x2000),
        class_type_name: class_type_name.to_string(),
    }
}

fn method(handle: usize, name: &str, params: Vec<Il2CppType>) -> Il2CppMethod {
    Il2CppMethod::new(handle, name.to_string(), params)
}

#[test]
fn aliases_of_builtin_types() {
    let pairs = [
        ("System.Int32", "int"),
        ("System.UInt32", "uint"),
        ("System.Int16", "short"),
        ("System.UInt16", "ushort"),
        ("System.Int64", "long"),
        ("System.UInt64", "ulong"),
        ("System.Byte", "byte"),
        ("System.SByte", "sbyte"),
        ("System.Boolean", "bool"),
        ("System.Single", "float"),
        ("System.Double", "double"),
        ("System.String", "string"),
        ("System.Char", "char"),
        ("System.Object", "object"),
        ("System.Void", "void"),
        ("System.Decimal", "decimal"),
        ("System.DateTime", "DateTime"),
    ];
    for (name, alias) in pairs {
        assert_eq!(ty(name, name).alias_name(), alias);
    }
}

#[test]
fn other_names_keep_their_name() {
    assert_eq!(alias_of_name("UnityEngine.Vector3"), "UnityEngine.Vector3");
    assert_eq!(alias_of_name("System.Int32&"), "System.Int32&");
    assert_eq!(alias_of_name("int"), "int");
}

#[test]
fn alias_of_an_alias_is_itself() {
    let once = alias_of_name("System.Boolean");
    assert_eq!(alias_of_name(&once), once);
}

#[test]
fn type_reports_its_class() {
    assert_eq!(ty("System.Int32", "System.Int32").class(), Il2CppClass(0x2000));
}

#[test]
fn parameters_are_counted_and_formatted() {
    let m = method(1, "Move", vec![ty("System.Single", "System.Single"), ty("System.Int32&", "System.Int32")]);
    assert_eq!(m.args_cnt(), 2);
    assert_eq!(m.arg(1).name, "System.Int32&");
    assert_eq!(m.arg_type_formatted(0), "float");
    assert_eq!(m.arg_type_formatted(1), "System.Int32&");
    assert_eq!(m.format_params(), "Move(float,int)");
}

#[test]
fn method_without_parameters_is_formatted_with_empty_parentheses() {
    let m = method(1, "Update", vec![]);
    assert_eq!(m.args_cnt(), 0);
    assert_eq!(m.format_params(), "Update()");
}

fn methods() -> Vec<Il2CppMethod> {
    vec![
        method(10, "Start", vec![]),
        method(11, "Attack", vec![ty("System.Int32", "System.Int32"), ty("System.String", "System.String")]),
        method(12, "Attack", vec![ty("System.Single", "System.Single")]),
    ]
}

#[test]
fn find_method_resolves_by_name_and_aliases() {
    let found = Il2CppClass::find_method("Player", &methods(), "Attack", vec!["int", "string"]).unwrap();
    assert_eq!(found.handle, 11);
    assert_eq!(found.name, "Attack");
    let start = Il2CppClass::find_method("Player", &methods(), "Start", vec![]).unwrap();
    assert_eq!(start.handle, 10);
}

#[test]
fn find_method_reports_a_missing_method() {
    assert_eq!(
        Il2CppClass::find_method("Player", &methods(), "Jump", vec![]).err(),
        Some(Il2CppError::MethodNotFound("Player::Jump".to_string()))
    );
}

#[test]
fn find_method_checks_only_the_first_method_of_the_name() {
    // The second overload would match, but only the first one is considered.
    assert_eq!(
        Il2CppClass::find_method("Player", &methods(), "Attack", vec!["float"]).err(),
        Some(Il2CppError::ArgCountMismatch {
            method: "Player::Attack".to_string(),
            actual: 2,
            expected: 1,
        })
    );
}

#[test]
fn find_method_reports_the_first_differing_parameter() {
    assert_eq!(
        Il2CppClass::find_method("Player", &methods(), "Attack", vec!["int", "float"]).err(),
        Some(Il2CppError::ArgTypeMismatch {
            method: "Player::Attack".to_string(),
            index: 1,
            expected: "float".to_string(),
            actual: "string".to_string(),
        })
    );
    assert_eq!(
        Il2CppClass::find_method("Player", &methods(), "Attack", vec!["System.Int32", "string"]).err(),
        Some(Il2CppError::ArgTypeMismatch {
            method: "Player::Attack".to_string(),
            index: 0,
            expected: "System.Int32".to_string(),
            actual: "int".to_string(),
        })
    );
}

#[test]
fn cloned_method_keeps_its_parts() {
    let m = method(7, "Fire", vec![ty("System.Boolean", "System.Boolean")]);
    let c = m.clone();
    assert_eq!(c.handle, 7);
    assert_eq!(c.name, "Fire");
    assert_eq!(c.params.len(), 1);
    assert_eq!(c.params[0].name, "System.Boolean");
}
