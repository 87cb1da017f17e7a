use il2cpp_runtime::codegen::{
    boxed_type_name, enum_discriminants, field_param_error, getter_method_name, method_call_form,
    method_param_mismatch, push_decimal, MethodCallForm,
};
use il2cpp_runtime::handles::Il2CppString;
use il2cpp_runtime::text::{find_last_dot, last_segment_of, str_eq};

#[test]
fn strings_compare_by_characters() {
    assert!(str_eq("Game.Player", "Game.Player"));
    assert!(!str_eq("Game.Player", "Game.Playe"));
    assert!(!str_eq("a", "b"));
    assert!(str_eq("", ""));
}

#[test]
fn last_dot_and_segment() {
    assert_eq!(find_last_dot("A.B.C"), Some(3));
    assert_eq!(find_last_dot("ABC"), None);
    assert_eq!(find_last_dot("é.x"), Some(1));
    assert_eq!(last_segment_of("UnityEngine.UI.Text"), "Text");
    assert_eq!(last_segment_of("Text"), "Text");
    assert_eq!(last_segment_of("Trailing."), "");
}

#[test]
fn decimal_digits() {
    for (n, text) in [(0usize, "0"), (7, "7"), (10, "10"), (1234, "1234"), (usize::MAX, &*usize::MAX.to_string())] {
        let mut s = String::from("n=");
        push_decimal(&mut s, n);
        assert_eq!(s, format!("n={}", text));
    }
}

#[test]
fn method_parameter_mismatch_message() {
    assert_eq!(method_param_mismatch("get_name", 1, 1), None);
    assert_eq!(
        method_param_mismatch("create_string", 2, 1).unwrap(),
        "[il2cpp_method] ERROR: Parameter mismatch for 'create_string' - Rust function has 2 parameters but IL2CPP args has 1 arguments"
    );
}

#[test]
fn field_parameter_message_counts_parameters_besides_self() {
    assert_eq!(field_param_error("health", 1, true), None);
    assert_eq!(field_param_error("instance", 0, false), None);
    assert_eq!(
        field_param_error("health", 3, true).unwrap(),
        "[il2cpp_field] ERROR: Field function 'health' must have no parameters (only optional self), but found 2 parameters"
    );
    assert_eq!(
        field_param_error("count", 1, false).unwrap(),
        "[il2cpp_field] ERROR: Field function 'count' must have no parameters (only optional self), but found 1 parameters"
    );
}

#[test]
fn call_forms() {
    assert_eq!(method_call_form(false, false), MethodCallForm::Static);
    assert_eq!(method_call_form(false, true), MethodCallForm::Static);
    assert_eq!(method_call_form(true, true), MethodCallForm::Extension);
    assert_eq!(method_call_form(true, false), MethodCallForm::Instance);
}

#[test]
fn generated_names() {
    assert_eq!(getter_method_name("BaseType"), "get_BaseType");
    assert_eq!(boxed_type_name("System_Int32"), "System_Int32__Boxed");
}

#[test]
fn enum_discriminants_count_from_zero() {
    assert_eq!(enum_discriminants(0), Vec::<usize>::new());
    assert_eq!(enum_discriminants(4), vec![0, 1, 2, 3]);
}

#[test]
fn wide_buffers_are_nul_terminated_utf16() {
    assert_eq!(Il2CppString::wide_buffer("Abc"), vec![65, 98, 99, 0]);
    assert_eq!(Il2CppString::wide_buffer(""), vec![0]);
    assert_eq!(Il2CppString::wide_buffer("é"), vec![0xE9, 0]);
    assert_eq!(Il2CppString::wide_buffer("😀"), vec![0xD83D, 0xDE00, 0]);
    // A trailing nul is taken as the terminator.
    assert_eq!(Il2CppString::wide_buffer("ab\0"), vec![97, 98, 0]);
}
