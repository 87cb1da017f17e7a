use vstd::prelude::*;
use vstd::string::*;

use crate::handles::Il2CppClass;
use crate::text::str_eq;

verus! {

/// An IL2CPP type as the library reads it: its handle, its full name, the
/// class it belongs to and the name of that class's by-value type.
pub struct Il2CppType {
    pub handle: usize,
    pub name: String,
    pub class: Il2CppClass,
    pub class_type_name: String,
}

impl Clone for Il2CppType {
    fn clone(&self) -> (res: Self)
        ensures
            res == *self,
    {
        Il2CppType {
            handle: self.handle,
            name: self.name.clone(),
            class: self.class,
            class_type_name: self.class_type_name.clone(),
        }
    }
}

/// The C# keyword for a built-in type name; any other name stays as it is.
pub open spec fn alias_of(name: Seq<char>) -> Seq<char> {
    if name == "System.Int32"@ {
        "int"@
    } else if name == "System.UInt32"@ {
        "uint"@
    } else if name == "System.Int16"@ {
        "short"@
    } else if name == "System.UInt16"@ {
        "ushort"@
    } else if name == "System.Int64"@ {
        "long"@
    } else if name == "System.UInt64"@ {
        "ulong"@
    } else if name == "System.Byte"@ {
        "byte"@
    } else if name == "System.SByte"@ {
        "sbyte"@
    } else if name == "System.Boolean"@ {
        "bool"@
    } else if name == "System.Single"@ {
        "float"@
    } else if name == "System.Double"@ {
        "double"@
    } else if name == "System.String"@ {
        "string"@
    } else if name == "System.Char"@ {
        "char"@
    } else if name == "System.Object"@ {
        "object"@
    } else if name == "System.Void"@ {
        "void"@
    } else if name == "System.Decimal"@ {
        "decimal"@
    } else if name == "System.DateTime"@ {
        "DateTime"@
    } else {
        name
    }
}

/// The alias of a type name.
pub fn alias_of_name(name: &str) -> (res: String)
    ensures
        res@ == alias_of(name@),
{
    if str_eq(name, "System.Int32") {
        String::from_str("int")
    } else if str_eq(name, "System.UInt32") {
        String::from_str("uint")
    } else if str_eq(name, "System.Int16") {
        String::from_str("short")
    } else if str_eq(name, "System.UInt16") {
        String::from_str("ushort")
    } else if str_eq(name, "System.Int64") {
        String::from_str("long")
    } else if str_eq(name, "System.UInt64") {
        String::from_str("ulong")
    } else if str_eq(name, "System.Byte") {
        String::from_str("byte")
    } else if str_eq(name, "System.SByte") {
        String::from_str("sbyte")
    } else if str_eq(name, "System.Boolean") {
        String::from_str("bool")
    } else if str_eq(name, "System.Single") {
        String::from_str("float")
    } else if str_eq(name, "System.Double") {
        String::from_str("double")
    } else if str_eq(name, "System.String") {
        String::from_str("string")
    } else if str_eq(name, "System.Char") {
        String::from_str("char")
    } else if str_eq(name, "System.Object") {
        String::from_str("object")
    } else if str_eq(name, "System.Void") {
        String::from_str("void")
    } else if str_eq(name, "System.Decimal") {
        String::from_str("decimal")
    } else if str_eq(name, "System.DateTime") {
        String::from_str("DateTime")
    } else {
        String::from_str(name)
    }
}

impl Il2CppType {
    /// The C# alias of this type's name (`System.Int32` is `int`, ...).
    pub fn alias_name(&self) -> (res: String)
        ensures
            res@ == alias_of(self.name@),
    {
        alias_of_name(self.name.as_str())
    }

    /// The class this type belongs to.
    pub fn class(&self) -> (res: Il2CppClass)
        ensures
            res == self.class,
    {
        self.class
    }
}

/// Aliasing is idempotent: the alias of an alias is the alias itself, since no
/// C# keyword is itself one of the mapped `System.` names.
pub proof fn lemma_alias_idempotent(name: Seq<char>)
    ensures
        alias_of(alias_of(name)) == alias_of(name),
{
        reveal_strlit("System.Int32");
        reveal_strlit("System.UInt32");
        reveal_strlit("System.Int16");
        reveal_strlit("System.UInt16");
        reveal_strlit("System.Int64");
        reveal_strlit("System.UInt64");
        reveal_strlit("System.Byte");
        reveal_strlit("System.SByte");
        reveal_strlit("System.Boolean");
        reveal_strlit("System.Single");
        reveal_strlit("System.Double");
        reveal_strlit("System.String");
        reveal_strlit("System.Char");
        reveal_strlit("System.Object");
        reveal_strlit("System.Void");
        reveal_strlit("System.Decimal");
        reveal_strlit("System.DateTime");
        reveal_strlit("int");
        reveal_strlit("uint");
        reveal_strlit("short");
        reveal_strlit("ushort");
        reveal_strlit("long");
        reveal_strlit("ulong");
        reveal_strlit("byte");
        reveal_strlit("sbyte");
        reveal_strlit("bool");
        reveal_strlit("float");
        reveal_strlit("double");
        reveal_strlit("string");
        reveal_strlit("char");
        reveal_strlit("object");
        reveal_strlit("void");
        reveal_strlit("decimal");
        reveal_strlit("DateTime");
    let a = alias_of(name);
    if a != name {
        assert(a.len() <= 8);
        assert(alias_of(a) == a);
    }
}


/// Only the listed `System` names are aliased: any other name is its own alias.
pub proof fn lemma_alias_other_names(name: Seq<char>)
    requires
        name != "System.Int32"@,
        name != "System.UInt32"@,
        name != "System.Int16"@,
        name != "System.UInt16"@,
        name != "System.Int64"@,
        name != "System.UInt64"@,
        name != "System.Byte"@,
        name != "System.SByte"@,
        name != "System.Boolean"@,
        name != "System.Single"@,
        name != "System.Double"@,
        name != "System.String"@,
        name != "System.Char"@,
        name != "System.Object"@,
        name != "System.Void"@,
        name != "System.Decimal"@,
        name != "System.DateTime"@,
    ensures
        alias_of(name) == name,
{
}


} // verus!
