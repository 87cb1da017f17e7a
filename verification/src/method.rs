use vstd::prelude::*;
use vstd::string::*;

use crate::error::{Il2CppError, Il2CppErrorView};
use crate::handles::Il2CppClass;
use crate::text::str_eq;
use crate::types::{alias_of, alias_of_name, Il2CppType};

verus! {

/// An IL2CPP method as the library reads it: its handle, its name and the
/// types of its parameters, in order.
pub struct Il2CppMethod {
    pub handle: usize,
    pub name: String,
    pub params: Vec<Il2CppType>,
}

impl Il2CppMethod {
    /// Whether two method values hold the same handle, name and parameter types.
    pub open spec fn same_as(&self, other: &Il2CppMethod) -> bool {
        &&& self.handle == other.handle
        &&& self.name@ == other.name@
        &&& self.params@ == other.params@
    }
}

impl Clone for Il2CppMethod {
    fn clone(&self) -> (res: Self)
        ensures
            res.same_as(self),
    {
        let params = self.params.clone();
        assert(params@ =~= self.params@);
        Il2CppMethod { handle: self.handle, name: self.name.clone(), params }
    }
}

/// The first index below `n` at which `p` holds, or -1.
pub open spec fn first_index(n: nat, p: spec_fn(int) -> bool) -> int
    decreases n,
{
    if n == 0 {
        -1
    } else {
        let r = first_index((n - 1) as nat, p);
        if r >= 0 {
            r
        } else if p(n - 1) {
            n - 1
        } else {
            -1
        }
    }
}

/// `first_index` is -1 when `p` holds nowhere below `n`, else the least index where it holds.
pub proof fn lemma_first_index(n: nat, p: spec_fn(int) -> bool)
    ensures
        -1 <= first_index(n, p) < n,
        first_index(n, p) == -1 ==> forall|j: int| 0 <= j < n ==> !#[trigger] p(j),
        first_index(n, p) >= 0 ==> p(first_index(n, p)),
        forall|j: int| 0 <= j < first_index(n, p) ==> !#[trigger] p(j),
    decreases n,
{
    if n > 0 {
        lemma_first_index((n - 1) as nat, p);
    }
}

/// `first_index` is the index that holds `p` with no earlier index holding it.
pub proof fn lemma_first_index_is(n: nat, p: spec_fn(int) -> bool, i: int)
    requires
        0 <= i < n,
        p(i),
        forall|j: int| 0 <= j < i ==> !#[trigger] p(j),
    ensures
        first_index(n, p) == i,
{
    lemma_first_index(n, p);
}

/// Holds at the indices of `methods` whose name is `name`.
pub open spec fn named(methods: Seq<Il2CppMethod>, name: Seq<char>) -> spec_fn(int) -> bool {
    |k: int| methods[k].name@ == name
}

/// Holds at the indices where a requested parameter type differs from the alias of
/// the parameter's type.
pub open spec fn differs(params: Seq<Il2CppType>, arg_types: Seq<Seq<char>>) -> spec_fn(
    int,
) -> bool {
    |j: int| arg_types[j] != alias_of(params[j].name@)
}

/// The name under which a method of a class is reported: `Class::method`.
pub open spec fn qualified_method_name(class_name: Seq<char>, name: Seq<char>) -> Seq<char> {
    class_name + seq![':', ':'] + name
}

/// What looking up `name` with parameter types `arg_types` among `methods` gives:
/// only the first method of that name is considered; its parameter count and then
/// each parameter's alias must agree with the request.
pub open spec fn find_method_result(
    class_name: Seq<char>,
    methods: Seq<Il2CppMethod>,
    name: Seq<char>,
    arg_types: Seq<Seq<char>>,
) -> Result<int, Il2CppErrorView> {
    let qn = qualified_method_name(class_name, name);
    let i = first_index(methods.len(), named(methods, name));
    if i < 0 {
        Err(Il2CppErrorView::MethodNotFound(qn))
    } else {
        let m = methods[i];
        if m.params@.len() != arg_types.len() {
            Err(
                Il2CppErrorView::ArgCountMismatch {
                    method: qn,
                    actual: m.params@.len(),
                    expected: arg_types.len(),
                },
            )
        } else {
            let k = first_index(arg_types.len(), differs(m.params@, arg_types));
            if k < 0 {
                Ok(i)
            } else {
                Err(
                    Il2CppErrorView::ArgTypeMismatch {
                        method: qn,
                        index: k as nat,
                        expected: arg_types[k],
                        actual: alias_of(m.params@[k].name@),
                    },
                )
            }
        }
    }
}

/// The views of a list of string slices.
pub open spec fn strs_view(v: Seq<&str>) -> Seq<Seq<char>> {
    v.map_values(|s: &str| s@)
}

impl Il2CppClass {
    /// Resolves the method `name` whose parameter types are `arg_types` among the
    /// `methods` of the class called `class_name`.
    pub fn find_method(
        class_name: &str,
        methods: &Vec<Il2CppMethod>,
        name: &str,
        arg_types: Vec<&str>,
    ) -> (res: Result<Il2CppMethod, Il2CppError>)
        ensures
            match find_method_result(class_name@, methods@, name@, strs_view(arg_types@)) {
                Ok(i) => res matches Ok(m) && m.same_as(&methods@[i]),
                Err(ev) => res matches Err(e) && e@ == ev,
            },
    {
        proof {
            reveal_strlit("::");
        }
        let mut qualified_name = String::from_str(class_name);
        qualified_name.append("::");
        qualified_name.append(name);
        let ghost ms = methods@;
        let ghost is_named = named(ms, name@);
        let mut i: usize = 0;
        while i < methods.len()
            invariant
                ms == methods@,
                is_named == named(ms, name@),
                qualified_name@ == qualified_method_name(class_name@, name@),
                i <= methods.len(),
                forall|j: int| 0 <= j < i ==> !#[trigger] is_named(j),
            decreases methods.len() - i,
        {
            if str_eq(methods[i].name.as_str(), name) {
                proof {
                    lemma_first_index_is(ms.len(), is_named, i as int);
                }
                let method = &methods[i];
                let count = method.params.len();
                if count != arg_types.len() {
                    return Err(
                        Il2CppError::ArgCountMismatch {
                            method: qualified_name,
                            actual: count,
                            expected: arg_types.len(),
                        },
                    );
                }
                let ghost args = strs_view(arg_types@);
                let ghost differ = differs(method.params@, args);
                let mut k: usize = 0;
                while k < arg_types.len()
                    invariant
                        ms == methods@,
                        i < ms.len(),
                        *method == ms[i as int],
                        is_named == named(ms, name@),
                        first_index(ms.len(), is_named) == i,
                        qualified_name@ == qualified_method_name(class_name@, name@),
                        args == strs_view(arg_types@),
                        count == method.params@.len(),
                        count == arg_types@.len(),
                        differ == differs(method.params@, args),
                        k <= arg_types.len(),
                        forall|j: int| 0 <= j < k ==> !#[trigger] differ(j),
                    decreases arg_types.len() - k,
                {
                    let actual = method.params[k].alias_name();
                    assert(args[k as int] == arg_types@[k as int]@);
                    if !str_eq(arg_types[k], actual.as_str()) {
                        proof {
                            lemma_first_index_is(args.len(), differ, k as int);
                        }
                        let expected = String::from_str(arg_types[k]);
                        assert(expected@ == args[k as int]);
                        return Err(
                            Il2CppError::ArgTypeMismatch {
                                method: qualified_name,
                                index: k,
                                expected,
                                actual,
                            },
                        );
                    }
                    k = k + 1;
                }
                proof {
                    lemma_first_index(args.len(), differ);
                }
                let found = method.clone();
                return Ok(found);
            }
            i = i + 1;
        }
        proof {
            lemma_first_index(ms.len(), is_named);
        }
        Err(Il2CppError::MethodNotFound(qualified_name))
    }
}


/// The parts joined with commas.
pub open spec fn join_commas(parts: Seq<Seq<char>>) -> Seq<char>
    decreases parts.len(),
{
    if parts.len() == 0 {
        seq![]
    } else if parts.len() == 1 {
        parts[0]
    } else {
        join_commas(parts.drop_last()) + seq![','] + parts.last()
    }
}

/// The alias of the by-value type of each parameter's class.
pub open spec fn param_aliases(params: Seq<Il2CppType>) -> Seq<Seq<char>> {
    params.map_values(|p: Il2CppType| alias_of(p.class_type_name@))
}

/// A method's signature as text: `name(T1,T2,...)`.
pub open spec fn formatted_params(name: Seq<char>, params: Seq<Il2CppType>) -> Seq<char> {
    name + seq!['('] + join_commas(param_aliases(params)) + seq![')']
}

impl Il2CppMethod {
    /// Whether the parameter count fits the runtime's 32-bit count.
    pub open spec fn wf(&self) -> bool {
        self.params@.len() <= u32::MAX
    }

    /// Builds a method value from what was read of it.
    pub fn new(handle: usize, name: String, params: Vec<Il2CppType>) -> (res: Il2CppMethod)
        requires
            params@.len() <= u32::MAX,
        ensures
            res.wf(),
            res.handle == handle,
            res.name == name,
            res.params == params,
    {
        Il2CppMethod { handle, name, params }
    }

    /// The number of parameters.
    pub fn args_cnt(&self) -> (res: u32)
        requires
            self.wf(),
        ensures
            res == self.params@.len(),
    {
        self.params.len() as u32
    }

    /// The type of parameter `i`.
    pub fn arg(&self, i: u32) -> (res: Il2CppType)
        requires
            i < self.params@.len(),
        ensures
            res == self.params@[i as int],
    {
        self.params[i as usize].clone()
    }

    /// The alias of the type of parameter `i`.
    pub fn arg_type_formatted(&self, i: u32) -> (res: String)
        requires
            i < self.params@.len(),
        ensures
            res@ == alias_of(self.params@[i as int].name@),
    {
        self.arg(i).alias_name()
    }

    /// The method's signature as text: its name, then the aliases of its
    /// parameters' by-value class types, comma-separated, in parentheses.
    pub fn format_params(&self) -> (res: String)
        ensures
            res@ == formatted_params(self.name@, self.params@),
    {
        proof {
            reveal_strlit("(");
            reveal_strlit(")");
            reveal_strlit(",");
            assert(","@ =~= seq![',']);
            assert("("@ =~= seq!['(']);
            assert(")"@ =~= seq![')']);
        }
        let ghost parts = param_aliases(self.params@);
        let count = self.params.len();
        let mut out = String::from_str(self.name.as_str());
        out.append("(");
        let mut i: usize = 0;
        while i < count
            invariant
                count == self.params@.len(),
                parts == param_aliases(self.params@),
                ","@ == seq![','],
                i <= count,
                out@ == self.name@ + seq!['('] + join_commas(parts.take(i as int)),
            decreases count - i,
        {
            assert(parts.take(i + 1).drop_last() =~= parts.take(i as int));
            let ghost before = out@;
            if i > 0 {
                out.append(",");
            }
            let part = alias_of_name(self.params[i].class_type_name.as_str());
            out.append(part.as_str());
            proof {
                assert(parts[i as int] == part@);
                assert(parts.take(i + 1).last() == parts[i as int]);
                if i == 0 {
                    assert(parts.take(1) =~= seq![parts[0]]);
                    assert(out@ =~= self.name@ + seq!['('] + join_commas(parts.take(i + 1)));
                } else {
                    assert(join_commas(parts.take(i + 1)) == join_commas(parts.take(i as int))
                        + seq![','] + parts[i as int]);
                    assert(out@ =~= before + seq![','] + part@);
                    assert(out@ =~= self.name@ + seq!['('] + join_commas(parts.take(i + 1)));
                }
            }
            i = i + 1;
        }
        assert(parts.take(count as int) =~= parts);
        out.append(")");
        out
    }
}


/// A resolved method is the first method of the requested name, and its
/// parameters' aliases are exactly the requested types; `MethodNotFound` comes
/// exactly when no method has the name.
pub proof fn lemma_find_method_sound(
    class_name: Seq<char>,
    methods: Seq<Il2CppMethod>,
    name: Seq<char>,
    arg_types: Seq<Seq<char>>,
)
    ensures
        find_method_result(class_name, methods, name, arg_types) matches Ok(i) ==> {
            &&& 0 <= i < methods.len()
            &&& methods[i].name@ == name
            &&& forall|j: int| 0 <= j < i ==> methods[j].name@ != name
            &&& methods[i].params@.len() == arg_types.len()
            &&& forall|j: int|
                0 <= j < arg_types.len() ==> arg_types[j] == alias_of(
                    #[trigger] methods[i].params@[j].name@,
                )
        },
        (find_method_result(class_name, methods, name, arg_types) matches Err(
            Il2CppErrorView::MethodNotFound(_),
        )) <==> forall|j: int| 0 <= j < methods.len() ==> methods[j].name@ != name,
{
    let p = named(methods, name);
    lemma_first_index(methods.len(), p);
    let i = first_index(methods.len(), p);
    assert forall|j: int| 0 <= j < i implies methods[j].name@ != name by {
        assert(!p(j));
    }
    if i >= 0 {
        assert(p(i));
        let m = methods[i];
        if m.params@.len() == arg_types.len() {
            let q = differs(m.params@, arg_types);
            lemma_first_index(arg_types.len(), q);
            if first_index(arg_types.len(), q) < 0 {
                assert forall|j: int| 0 <= j < arg_types.len() implies arg_types[j] == alias_of(
                    #[trigger] methods[i].params@[j].name@,
                ) by {
                    assert(!q(j));
                }
            }
        }
    } else {
        assert forall|j: int| 0 <= j < methods.len() implies methods[j].name@ != name by {
            assert(!p(j));
        }
    }
}

/// A method without parameters is written `name()`.
pub proof fn lemma_format_no_params(name: Seq<char>, params: Seq<Il2CppType>)
    requires
        params.len() == 0,
    ensures
        formatted_params(name, params) == name + seq!['(', ')'],
{
    assert(param_aliases(params) =~= Seq::<Seq<char>>::empty());
    assert(formatted_params(name, params) =~= name + seq!['(', ')']);
}


/// Completeness of resolution: when the first method named `name` has as many
/// parameters as requested and each requested type is the alias of that
/// parameter's type name, that method is the answer.
pub proof fn lemma_find_method_complete(
    class_name: Seq<char>,
    methods: Seq<Il2CppMethod>,
    name: Seq<char>,
    arg_types: Seq<Seq<char>>,
    i: int,
)
    requires
        0 <= i < methods.len(),
        methods[i].name@ == name,
        forall|j: int| 0 <= j < i ==> #[trigger] methods[j].name@ != name,
        methods[i].params@.len() == arg_types.len(),
        forall|j: int|
            0 <= j < arg_types.len() ==> arg_types[j] == alias_of(
                #[trigger] methods[i].params@[j].name@,
            ),
    ensures
        find_method_result(class_name, methods, name, arg_types) == Ok::<int, Il2CppErrorView>(i),
{
    let p = named(methods, name);
    assert forall|j: int| 0 <= j < i implies !#[trigger] p(j) by {
        assert(methods[j].name@ != name);
    }
    lemma_first_index_is(methods.len(), p, i);
    let q = differs(methods[i].params@, arg_types);
    lemma_first_index(arg_types.len(), q);
    if first_index(arg_types.len(), q) >= 0 {
        let k = first_index(arg_types.len(), q);
        assert(arg_types[k] == alias_of(methods[i].params@[k].name@));
    }
}

/// When the first method named `name` has another number of parameters, the
/// answer is `ArgCountMismatch` with `Class::name`, its count and the requested count.
pub proof fn lemma_find_method_count_mismatch(
    class_name: Seq<char>,
    methods: Seq<Il2CppMethod>,
    name: Seq<char>,
    arg_types: Seq<Seq<char>>,
    i: int,
)
    requires
        0 <= i < methods.len(),
        methods[i].name@ == name,
        forall|j: int| 0 <= j < i ==> #[trigger] methods[j].name@ != name,
        methods[i].params@.len() != arg_types.len(),
    ensures
        find_method_result(class_name, methods, name, arg_types) == Err::<int, Il2CppErrorView>(
            Il2CppErrorView::ArgCountMismatch {
                method: class_name + seq![':', ':'] + name,
                actual: methods[i].params@.len(),
                expected: arg_types.len(),
            },
        ),
{
    let p = named(methods, name);
    assert forall|j: int| 0 <= j < i implies !#[trigger] p(j) by {
        assert(methods[j].name@ != name);
    }
    lemma_first_index_is(methods.len(), p, i);
}

/// When the first method named `name` has the requested number of parameters
/// and `k` is the first position whose requested type is not the alias of the
/// parameter's type name, the answer is `ArgTypeMismatch` at `k`, with the
/// requested type and that alias.
pub proof fn lemma_find_method_type_mismatch(
    class_name: Seq<char>,
    methods: Seq<Il2CppMethod>,
    name: Seq<char>,
    arg_types: Seq<Seq<char>>,
    i: int,
    k: int,
)
    requires
        0 <= i < methods.len(),
        methods[i].name@ == name,
        forall|j: int| 0 <= j < i ==> #[trigger] methods[j].name@ != name,
        methods[i].params@.len() == arg_types.len(),
        0 <= k < arg_types.len(),
        arg_types[k] != alias_of(methods[i].params@[k].name@),
        forall|j: int|
            0 <= j < k ==> arg_types[j] == alias_of(#[trigger] methods[i].params@[j].name@),
    ensures
        find_method_result(class_name, methods, name, arg_types) == Err::<int, Il2CppErrorView>(
            Il2CppErrorView::ArgTypeMismatch {
                method: class_name + seq![':', ':'] + name,
                index: k as nat,
                expected: arg_types[k],
                actual: alias_of(methods[i].params@[k].name@),
            },
        ),
{
    let p = named(methods, name);
    assert forall|j: int| 0 <= j < i implies !#[trigger] p(j) by {
        assert(methods[j].name@ != name);
    }
    lemma_first_index_is(methods.len(), p, i);
    let q = differs(methods[i].params@, arg_types);
    assert forall|j: int| 0 <= j < k implies !#[trigger] q(j) by {
        assert(arg_types[j] == alias_of(methods[i].params@[j].name@));
    }
    lemma_first_index_is(arg_types.len(), q, k);
}

/// Joining one more part after at least one adds a comma and the part.
pub proof fn lemma_join_commas_push(parts: Seq<Seq<char>>, x: Seq<char>)
    ensures
        parts.len() > 0 ==> join_commas(parts.push(x)) == join_commas(parts) + seq![','] + x,
        parts.len() == 0 ==> join_commas(parts.push(x)) == x,
{
    assert(parts.push(x).drop_last() =~= parts);
    if parts.len() == 0 {
        assert(parts.push(x) =~= seq![x]);
    }
}

/// Each further parameter adds a comma and its alias before the closing parenthesis;
/// a single parameter is written `name(alias)`.
pub proof fn lemma_format_push(name: Seq<char>, params: Seq<Il2CppType>, p: Il2CppType)
    ensures
        params.len() > 0 ==> formatted_params(name, params.push(p)) == formatted_params(
            name,
            params,
        ).drop_last() + seq![','] + alias_of(p.class_type_name@) + seq![')'],
        params.len() == 0 ==> formatted_params(name, params.push(p)) == name + seq!['(']
            + alias_of(p.class_type_name@) + seq![')'],
{
    assert(param_aliases(params.push(p)) =~= param_aliases(params).push(
        alias_of(p.class_type_name@),
    ));
    lemma_join_commas_push(param_aliases(params), alias_of(p.class_type_name@));
    let f = formatted_params(name, params);
    assert(f.drop_last() =~= name + seq!['('] + join_commas(param_aliases(params)));
    assert(formatted_params(name, params.push(p)) =~= name + seq!['('] + join_commas(
        param_aliases(params.push(p)),
    ) + seq![')']);
}

} // verus!
