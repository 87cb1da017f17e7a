use vstd::prelude::*;
use vstd::string::*;

verus! {

/// `String::push`: appends one character.
#[verifier::external_body]
fn string_push(s: &mut String, c: char)
    ensures
        final(s)@ == old(s)@.push(c),
{
    s.push(c);
}

/// The decimal digit character for `d`.
pub open spec fn digit_char(d: nat) -> char {
    (d + 48) as char
}

/// The decimal representation of `n`, without leading zeros.
pub open spec fn decimal(n: nat) -> Seq<char>
    decreases n,
{
    if n < 10 {
        seq![digit_char(n)]
    } else {
        decimal(n / 10).push(digit_char(n % 10))
    }
}

/// Appends the decimal representation of `n`.
pub fn push_decimal(out: &mut String, n: usize)
    ensures
        final(out)@ == old(out)@ + decimal(n as nat),
    decreases n,
{
    if n >= 10 {
        push_decimal(out, n / 10);
    }
    let d: u8 = (n % 10) as u8;
    let c: char = (d + 48) as char;
    assert(c == digit_char((n % 10) as nat));
    string_push(out, c);
    proof {
        if n < 10 {
            assert(n % 10 == n);
        }
    }
    assert(out@ =~= old(out)@ + decimal(n as nat));
}


/// How a generated method wrapper reaches its managed method.
#[derive(Debug, Clone, Copy, PartialEq, Eq, Structural)]
pub enum MethodCallForm {
    /// No receiver: the class is looked up by name and only the arguments are passed.
    Static,
    /// A receiver marked as extension: the class is looked up by name and a null
    /// instance is passed before the arguments.
    Extension,
    /// A receiver: a null receiver is refused, its class is used and the
    /// receiver is passed before the arguments.
    Instance,
}

/// The call form of a method wrapper: static without a receiver, otherwise an
/// extension when asked for, otherwise an instance call.
pub fn method_call_form(has_receiver: bool, extension: bool) -> (res: MethodCallForm)
    ensures
        !has_receiver ==> res == MethodCallForm::Static,
        has_receiver && extension ==> res == MethodCallForm::Extension,
        has_receiver && !extension ==> res == MethodCallForm::Instance,
{
    if !has_receiver {
        MethodCallForm::Static
    } else if extension {
        MethodCallForm::Extension
    } else {
        MethodCallForm::Instance
    }
}

/// The compile error of a method wrapper whose Rust parameters and declared
/// managed arguments differ in number.
pub open spec fn method_mismatch_message(fn_name: Seq<char>, params: nat, args: nat) -> Seq<
    char,
> {
    "[il2cpp_method] ERROR: Parameter mismatch for '"@ + fn_name
        + "' - Rust function has "@ + decimal(params) + " parameters but IL2CPP args has "@
        + decimal(args) + " arguments"@
}

/// The error to report when a method wrapper declares `arg_count` managed
/// arguments for `param_count` Rust parameters, if they differ.
pub fn method_param_mismatch(fn_name: &str, param_count: usize, arg_count: usize) -> (res: Option<
    String,
>)
    ensures
        res is None <==> param_count == arg_count,
        res matches Some(msg) ==> msg@ == method_mismatch_message(
            fn_name@,
            param_count as nat,
            arg_count as nat,
        ),
{
    if param_count == arg_count {
        return None;
    }
    let mut msg = String::from_str("[il2cpp_method] ERROR: Parameter mismatch for '");
    msg.append(fn_name);
    msg.append("' - Rust function has ");
    push_decimal(&mut msg, param_count);
    msg.append(" parameters but IL2CPP args has ");
    push_decimal(&mut msg, arg_count);
    msg.append(" arguments");
    Some(msg)
}

/// The compile error of a field getter that takes parameters besides `self`.
pub open spec fn field_params_message(fn_name: Seq<char>, found: nat) -> Seq<char> {
    "[il2cpp_field] ERROR: Field function '"@ + fn_name
        + "' must have no parameters (only optional self), but found "@ + decimal(found)
        + " parameters"@
}

/// The error to report when a field getter has `param_count` inputs, `self`
/// included when `has_self`, if it has any besides `self`.
pub fn field_param_error(fn_name: &str, param_count: usize, has_self: bool) -> (res: Option<
    String,
>)
    requires
        has_self ==> param_count >= 1,
    ensures
        res is None <==> param_count == (if has_self {
            1nat
        } else {
            0nat
        }),
        res matches Some(msg) ==> msg@ == field_params_message(
            fn_name@,
            (if has_self {
                param_count - 1
            } else {
                param_count as int
            }) as nat,
        ),
{
    let expected: usize = if has_self {
        1
    } else {
        0
    };
    if param_count == expected {
        return None;
    }
    let found: usize = if has_self {
        param_count - 1
    } else {
        param_count
    };
    let mut msg = String::from_str("[il2cpp_field] ERROR: Field function '");
    msg.append(fn_name);
    msg.append("' must have no parameters (only optional self), but found ");
    push_decimal(&mut msg, found);
    msg.append(" parameters");
    Some(msg)
}

/// The managed method behind a property getter: `get_` and the property's name.
pub fn getter_method_name(property: &str) -> (res: String)
    ensures
        res@ == "get_"@ + property@,
{
    let mut name = String::from_str("get_");
    name.append(property);
    name
}

/// The name of the reference wrapper generated beside a value type.
pub fn boxed_type_name(ident: &str) -> (res: String)
    ensures
        res@ == ident@ + "__Boxed"@,
{
    let mut name = String::from_str(ident);
    name.append("__Boxed");
    name
}

/// The discriminants given to an enum's variants: 0, 1, ... in order.
pub fn enum_discriminants(count: usize) -> (res: Vec<usize>)
    ensures
        res@.len() == count,
        forall|i: int| 0 <= i < count ==> res@[i] == i,
{
    let mut values: Vec<usize> = Vec::new();
    let mut i: usize = 0;
    while i < count
        invariant
            i <= count,
            values@.len() == i,
            forall|j: int| 0 <= j < i ==> values@[j] == j,
        decreases count - i,
    {
        values.push(i);
        i = i + 1;
    }
    values
}

} // verus!
