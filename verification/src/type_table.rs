use vstd::prelude::*;
use vstd::string::*;

use crate::error::{Il2CppError, Il2CppErrorView};
use crate::handles::Il2CppClass;
use crate::text::{find_last_dot, last_dot, last_segment, last_segment_of, lemma_last_dot, str_eq};

verus! {

/// The namespace and name that the runtime reports for a class.
pub struct ClassIdentity {
    pub namespace: String,
    pub name: String,
}

/// One entry of the type table: the name it is filed under, the class, and the
/// class's identity as read from the runtime (`None` where that read failed).
pub struct TypeEntry {
    pub qualified_name: String,
    pub class: Il2CppClass,
    pub identity: Option<ClassIdentity>,
}

/// What the table holds under a name: the class and its identity.
pub type EntryValue = (Il2CppClass, Option<(Seq<char>, Seq<char>)>);

/// The identity of a class taken as characters.
pub open spec fn identity_view(id: Option<ClassIdentity>) -> Option<(Seq<char>, Seq<char>)> {
    match id {
        Some(i) => Some((i.namespace@, i.name@)),
        None => None,
    }
}

/// The name an entry is filed under, and what it holds.
pub open spec fn entry_key(e: TypeEntry) -> Seq<char> {
    e.qualified_name@
}

pub open spec fn entry_value(e: TypeEntry) -> EntryValue {
    (e.class, identity_view(e.identity))
}

/// The map from names to entries that a list of entries stands for, later
/// entries taking precedence.
pub open spec fn map_of(es: Seq<TypeEntry>) -> Map<Seq<char>, EntryValue>
    decreases es.len(),
{
    if es.len() == 0 {
        Map::empty()
    } else {
        map_of(es.drop_last()).insert(entry_key(es.last()), entry_value(es.last()))
    }
}

/// No name is filed twice.
pub open spec fn distinct_keys(es: Seq<TypeEntry>) -> bool {
    forall|i: int, j: int|
        0 <= i < es.len() && 0 <= j < es.len() && i != j ==> entry_key(es[i]) != entry_key(
            es[j],
        )
}

/// With distinct names, the map holds exactly the entries' names, each with its entry.
pub proof fn lemma_map_of(es: Seq<TypeEntry>)
    requires
        distinct_keys(es),
    ensures
        forall|i: int|
            0 <= i < es.len() ==> #[trigger] map_of(es).contains_key(entry_key(es[i]))
                && map_of(es)[entry_key(es[i])] == entry_value(es[i]),
        forall|k: Seq<char>|
            #[trigger] map_of(es).contains_key(k) ==> exists|i: int|
                0 <= i < es.len() && entry_key(es[i]) == k,
    decreases es.len(),
{
    if es.len() > 0 {
        let d = es.drop_last();
        assert(distinct_keys(d)) by {
            assert forall|i: int, j: int|
                0 <= i < d.len() && 0 <= j < d.len() && i != j implies entry_key(d[i])
                != entry_key(d[j]) by {
                assert(d[i] == es[i] && d[j] == es[j]);
            }
        }
        lemma_map_of(d);
        assert forall|i: int| 0 <= i < es.len() implies #[trigger] map_of(es).contains_key(
            entry_key(es[i]),
        ) && map_of(es)[entry_key(es[i])] == entry_value(es[i]) by {
            if i < es.len() - 1 {
                assert(d[i] == es[i]);
                assert(map_of(d).contains_key(entry_key(d[i])));
            }
        }
        assert forall|k: Seq<char>| #[trigger] map_of(es).contains_key(k) implies exists|i: int|
            0 <= i < es.len() && entry_key(es[i]) == k by {
            if k != entry_key(es.last()) {
                assert(map_of(d).contains_key(k));
                let i = choose|i: int| 0 <= i < d.len() && entry_key(d[i]) == k;
                assert(es[i] == d[i]);
            }
        }
    }
}

/// The name under which a unique entry satisfies `p`, if exactly one does.
pub open spec fn unique_key(
    m: Map<Seq<char>, EntryValue>,
    p: spec_fn(Seq<char>, EntryValue) -> bool,
) -> Option<Seq<char>> {
    if exists|k: Seq<char>|
        #[trigger] m.contains_key(k) && p(k, m[k]) && forall|k2: Seq<char>|
            #[trigger] m.contains_key(k2) && p(k2, m[k2]) ==> k2 == k {
        Some(
            choose|k: Seq<char>|
                #[trigger] m.contains_key(k) && p(k, m[k]) && forall|k2: Seq<char>|
                    #[trigger] m.contains_key(k2) && p(k2, m[k2]) ==> k2 == k,
        )
    } else {
        None
    }
}

/// The class filed under the unique name satisfying `p`, if there is one.
pub open spec fn unique_class(
    m: Map<Seq<char>, EntryValue>,
    p: spec_fn(Seq<char>, EntryValue) -> bool,
) -> Option<Il2CppClass> {
    match unique_key(m, p) {
        Some(k) => Some(m[k].0),
        None => None,
    }
}

/// Reading `unique_key` off a scan of the entries: one match gives its name,
/// none or two give nothing.
pub proof fn lemma_unique_scan(es: Seq<TypeEntry>, p: spec_fn(Seq<char>, EntryValue) -> bool)
    requires
        distinct_keys(es),
    ensures
        forall|f: int|
            0 <= f < es.len() && p(entry_key(es[f]), entry_value(es[f])) && (forall|j: int|
                0 <= j < es.len() && j != f ==> !p(entry_key(es[j]), entry_value(es[j])))
                ==> unique_key(map_of(es), p) == Some(entry_key(es[f])),
        forall|f: int, g: int|
            0 <= f < es.len() && 0 <= g < es.len() && f != g && p(
                entry_key(es[f]),
                entry_value(es[f]),
            ) && p(entry_key(es[g]), entry_value(es[g])) ==> unique_key(map_of(es), p).is_none(),
        (forall|j: int| 0 <= j < es.len() ==> !p(entry_key(es[j]), entry_value(es[j])))
            ==> unique_key(map_of(es), p).is_none(),
{
    lemma_map_of(es);
    let m = map_of(es);
    assert forall|f: int|
        0 <= f < es.len() && p(entry_key(es[f]), entry_value(es[f])) && (forall|j: int|
            0 <= j < es.len() && j != f ==> !p(entry_key(es[j]), entry_value(es[j])))
        implies unique_key(m, p) == Some(entry_key(es[f])) by {
        let kf = entry_key(es[f]);
        assert(m.contains_key(kf));
        assert forall|k2: Seq<char>| #[trigger] m.contains_key(k2) && p(k2, m[k2]) implies k2
            == kf by {
            let j = choose|j: int| 0 <= j < es.len() && entry_key(es[j]) == k2;
            assert(m.contains_key(entry_key(es[j])));
        }
        assert(m.contains_key(kf) && p(kf, m[kf]));
        let k = choose|k: Seq<char>|
            #[trigger] m.contains_key(k) && p(k, m[k]) && forall|k2: Seq<char>|
                #[trigger] m.contains_key(k2) && p(k2, m[k2]) ==> k2 == k;
        assert(k == kf);
    }
    assert forall|f: int, g: int|
        0 <= f < es.len() && 0 <= g < es.len() && f != g && p(
            entry_key(es[f]),
            entry_value(es[f]),
        ) && p(entry_key(es[g]), entry_value(es[g])) implies unique_key(m, p).is_none() by {
        let kf = entry_key(es[f]);
        let kg = entry_key(es[g]);
        assert(m.contains_key(kf) && m.contains_key(kg));
        if unique_key(m, p).is_some() {
            let k = choose|k: Seq<char>|
                #[trigger] m.contains_key(k) && p(k, m[k]) && forall|k2: Seq<char>|
                    #[trigger] m.contains_key(k2) && p(k2, m[k2]) ==> k2 == k;
            assert(kf == k && kg == k);
        }
    }
    if forall|j: int| 0 <= j < es.len() ==> !p(entry_key(es[j]), entry_value(es[j])) {
        if unique_key(m, p).is_some() {
            let k = choose|k: Seq<char>|
                #[trigger] m.contains_key(k) && p(k, m[k]) && forall|k2: Seq<char>|
                    #[trigger] m.contains_key(k2) && p(k2, m[k2]) ==> k2 == k;
            let j = choose|j: int| 0 <= j < es.len() && entry_key(es[j]) == k;
            assert(m.contains_key(entry_key(es[j])));
        }
    }
}


/// Holds for the entries whose class has the identity `namespace`.`name`.
pub open spec fn identity_pred(namespace: Seq<char>, name: Seq<char>) -> spec_fn(
    Seq<char>,
    EntryValue,
) -> bool {
    |k: Seq<char>, v: EntryValue| v.1 == Some((namespace, name))
}

/// Holds for the entries whose name ends in the segment `short`.
pub open spec fn segment_pred(short: Seq<char>) -> spec_fn(Seq<char>, EntryValue) -> bool {
    |k: Seq<char>, v: EntryValue| last_segment(k) == short
}

/// `namespace.name` written out.
pub open spec fn dotted(namespace: Seq<char>, name: Seq<char>) -> Seq<char> {
    namespace + seq!['.'] + name
}

/// The class a key resolves to in the table `m`, if any:
/// 1. the entry filed under the key itself, when the key has no `.` or the
///    entry's class identity spells the key;
/// 2. for a key with a `.`, the only class whose identity is the key split at
///    its last `.` into namespace and name;
/// 3. the only entry whose name ends in the same segment as the key.
pub open spec fn cached_class(m: Map<Seq<char>, EntryValue>, key: Seq<char>) -> Option<
    Il2CppClass,
> {
    let has_dot = key.contains('.');
    let d = last_dot(key);
    if m.contains_key(key) && (!has_dot || (m[key].1 matches Some(id) && dotted(id.0, id.1)
        == key)) {
        Some(m[key].0)
    } else if has_dot && unique_class(
        m,
        identity_pred(key.subrange(0, d), key.subrange(d + 1, key.len() as int)),
    ).is_some() {
        unique_class(m, identity_pred(key.subrange(0, d), key.subrange(d + 1, key.len() as int)))
    } else {
        unique_class(m, segment_pred(last_segment(key)))
    }
}

/// The table of the runtime's classes by qualified name.
pub struct TypeTable {
    entries: Vec<TypeEntry>,
}

impl View for TypeTable {
    type V = Map<Seq<char>, EntryValue>;

    closed spec fn view(&self) -> Map<Seq<char>, EntryValue> {
        map_of(self.entries@)
    }
}

impl TypeTable {
    /// The table's entries are filed under distinct names.
    pub closed spec fn wf(&self) -> bool {
        distinct_keys(self.entries@)
    }

    /// An empty table.
    pub fn new() -> (res: TypeTable)
        ensures
            res.wf(),
            res@ == Map::<Seq<char>, EntryValue>::empty(),
    {
        TypeTable { entries: Vec::new() }
    }

    /// The number of names in the table.
    pub fn len(&self) -> (res: usize)
        requires
            self.wf(),
        ensures
            res == self@.dom().len(),
    {
        proof {
            lemma_map_of_len(self.entries@);
        }
        self.entries.len()
    }

    /// Whether the table is empty.
    pub fn is_empty(&self) -> (res: bool)
        requires
            self.wf(),
        ensures
            res == (self@.dom().len() == 0),
    {
        self.len() == 0
    }

    /// Files `class`, whose identity is `identity`, under `qualified_name`,
    /// replacing what was filed there before.
    pub fn insert(
        &mut self,
        qualified_name: String,
        class: Il2CppClass,
        identity: Option<ClassIdentity>,
    )
        requires
            old(self).wf(),
        ensures
            final(self).wf(),
            final(self)@ == old(self)@.insert(qualified_name@, (class, identity_view(identity))),
    {
        let ghost es = self.entries@;
        let ghost k = qualified_name@;
        let ghost v = (class, identity_view(identity));
        let mut i: usize = 0;
        while i < self.entries.len()
            invariant
                es == self.entries@,
                es == old(self).entries@,
                k == qualified_name@,
                v == (class, identity_view(identity)),
                distinct_keys(es),
                i <= es.len(),
                forall|j: int| 0 <= j < i ==> entry_key(#[trigger] es[j]) != k,
            decreases es.len() - i,
        {
            let same = str_eq(self.entries[i].qualified_name.as_str(), qualified_name.as_str());
            if same {
                let entry = TypeEntry { qualified_name, class, identity };
                self.entries.set(i, entry);
                proof {
                    lemma_map_of_update(es, i as int, entry);
                }
                return;
            }
            i = i + 1;
        }
        let entry = TypeEntry { qualified_name, class, identity };
        self.entries.push(entry);
        proof {
            let es2 = self.entries@;
            assert(es2.drop_last() =~= es);
            assert forall|a: int, b: int|
                0 <= a < es2.len() && 0 <= b < es2.len() && a != b implies entry_key(es2[a])
                != entry_key(es2[b]) by {
                if a < es.len() && b < es.len() {
                    assert(es2[a] == es[a] && es2[b] == es[b]);
                } else if a < es.len() {
                    assert(es2[a] == es[a]);
                } else {
                    assert(es2[b] == es[b]);
                }
            }
        }
    }
}

/// The number of names equals the number of entries when names are distinct.
pub proof fn lemma_map_of_len(es: Seq<TypeEntry>)
    requires
        distinct_keys(es),
    ensures
        map_of(es).dom().finite(),
        map_of(es).dom().len() == es.len(),
    decreases es.len(),
{
    if es.len() > 0 {
        let d = es.drop_last();
        assert(distinct_keys(d)) by {
            assert forall|i: int, j: int|
                0 <= i < d.len() && 0 <= j < d.len() && i != j implies entry_key(d[i])
                != entry_key(d[j]) by {
                assert(d[i] == es[i] && d[j] == es[j]);
            }
        }
        lemma_map_of_len(d);
        lemma_map_of(d);
        if map_of(d).contains_key(entry_key(es.last())) {
            let i = choose|i: int| 0 <= i < d.len() && entry_key(d[i]) == entry_key(es.last());
            assert(d[i] == es[i]);
        }
    }
}

/// Replacing the entry at `i` by one under the same name replaces what the map
/// holds under that name.
pub proof fn lemma_map_of_update(es: Seq<TypeEntry>, i: int, e: TypeEntry)
    requires
        distinct_keys(es),
        0 <= i < es.len(),
        entry_key(es[i]) == entry_key(e),
    ensures
        distinct_keys(es.update(i, e)),
        map_of(es.update(i, e)) == map_of(es).insert(entry_key(e), entry_value(e)),
{
    let es2 = es.update(i, e);
    assert(distinct_keys(es2)) by {
        assert forall|a: int, b: int|
            0 <= a < es2.len() && 0 <= b < es2.len() && a != b implies entry_key(es2[a])
            != entry_key(es2[b]) by {
            assert(entry_key(es2[a]) == entry_key(es[a]));
            assert(entry_key(es2[b]) == entry_key(es[b]));
        }
    }
    lemma_map_of(es);
    lemma_map_of(es2);
    let m1 = map_of(es2);
    let m2 = map_of(es).insert(entry_key(e), entry_value(e));
    assert forall|k: Seq<char>| #[trigger] m1.contains_key(k) <==> m2.contains_key(k) by {
        if m1.contains_key(k) {
            let j = choose|j: int| 0 <= j < es2.len() && entry_key(es2[j]) == k;
            if j != i {
                assert(map_of(es).contains_key(entry_key(es[j])));
            }
        }
        if m2.contains_key(k) && k != entry_key(e) {
            let j = choose|j: int| 0 <= j < es.len() && entry_key(es[j]) == k;
            assert(m1.contains_key(entry_key(es2[j])));
        }
        if k == entry_key(e) {
            assert(m1.contains_key(entry_key(es2[i])));
        }
    }
    assert forall|k: Seq<char>| #[trigger] m1.contains_key(k) implies m1[k] == m2[k] by {
        let j = choose|j: int| 0 <= j < es2.len() && entry_key(es2[j]) == k;
        assert(m1.contains_key(entry_key(es2[j])));
        if j != i {
            assert(map_of(es).contains_key(entry_key(es[j])));
        }
    }
    assert(m1 =~= m2);
}


impl TypeTable {
    /// The index of the entry filed under `key`.
    fn position_of(&self, key: &str) -> (res: Option<usize>)
        requires
            self.wf(),
        ensures
            match res {
                Some(i) => i < self.entries@.len() && entry_key(self.entries@[i as int]) == key@,
                None => !self@.contains_key(key@),
            },
    {
        let mut i: usize = 0;
        while i < self.entries.len()
            invariant
                i <= self.entries@.len(),
                forall|j: int| 0 <= j < i ==> entry_key(#[trigger] self.entries@[j]) != key@,
            decreases self.entries@.len() - i,
        {
            if str_eq(self.entries[i].qualified_name.as_str(), key) {
                return Some(i);
            }
            i = i + 1;
        }
        proof {
            lemma_map_of(self.entries@);
        }
        None
    }

    /// The class of the only entry whose identity is `namespace`.`name`, if exactly one has it.
    fn unique_by_identity(&self, namespace: &str, name: &str) -> (res: Option<Il2CppClass>)
        requires
            self.wf(),
        ensures
            res == unique_class(self@, identity_pred(namespace@, name@)),
    {
        let ghost es = self.entries@;
        let ghost p = identity_pred(namespace@, name@);
        let mut found: Option<usize> = None;
        let mut i: usize = 0;
        while i < self.entries.len()
            invariant
                es == self.entries@,
                distinct_keys(es),
                p == identity_pred(namespace@, name@),
                i <= es.len(),
                match found {
                    Some(f) => f < i && p(entry_key(es[f as int]), entry_value(es[f as int]))
                        && forall|j: int|
                        0 <= j < i && j != f ==> !#[trigger] p(
                            entry_key(es[j]),
                            entry_value(es[j]),
                        ),
                    None => forall|j: int|
                        0 <= j < i ==> !#[trigger] p(entry_key(es[j]), entry_value(es[j])),
                },
            decreases es.len() - i,
        {
            let hit = match &self.entries[i].identity {
                Some(id) => str_eq(id.namespace.as_str(), namespace) && str_eq(
                    id.name.as_str(),
                    name,
                ),
                None => false,
            };
            assert(hit == p(entry_key(es[i as int]), entry_value(es[i as int])));
            if hit {
                match found {
                    Some(f) => {
                        proof {
                            lemma_unique_scan(es, p);
                            assert(p(entry_key(es[f as int]), entry_value(es[f as int])));
                        }
                        return None;
                    },
                    None => {
                        found = Some(i);
                    },
                }
            }
            i = i + 1;
        }
        proof {
            lemma_unique_scan(es, p);
        }
        match found {
            Some(f) => {
                proof {
                    lemma_map_of(es);
                }
                Some(self.entries[f].class)
            },
            None => None,
        }
    }

    /// The class of the only entry whose name ends in the segment `short`, if exactly one does.
    fn unique_by_segment(&self, short: &str) -> (res: Option<Il2CppClass>)
        requires
            self.wf(),
        ensures
            res == unique_class(self@, segment_pred(short@)),
    {
        let ghost es = self.entries@;
        let ghost p = segment_pred(short@);
        let mut found: Option<usize> = None;
        let mut i: usize = 0;
        while i < self.entries.len()
            invariant
                es == self.entries@,
                distinct_keys(es),
                p == segment_pred(short@),
                i <= es.len(),
                match found {
                    Some(f) => f < i && p(entry_key(es[f as int]), entry_value(es[f as int]))
                        && forall|j: int|
                        0 <= j < i && j != f ==> !#[trigger] p(
                            entry_key(es[j]),
                            entry_value(es[j]),
                        ),
                    None => forall|j: int|
                        0 <= j < i ==> !#[trigger] p(entry_key(es[j]), entry_value(es[j])),
                },
            decreases es.len() - i,
        {
            let segment = last_segment_of(self.entries[i].qualified_name.as_str());
            let hit = str_eq(segment, short);
            assert(hit == p(entry_key(es[i as int]), entry_value(es[i as int])));
            if hit {
                match found {
                    Some(f) => {
                        proof {
                            lemma_unique_scan(es, p);
                            assert(p(entry_key(es[f as int]), entry_value(es[f as int])));
                        }
                        return None;
                    },
                    None => {
                        found = Some(i);
                    },
                }
            }
            i = i + 1;
        }
        proof {
            lemma_unique_scan(es, p);
        }
        match found {
            Some(f) => {
                proof {
                    lemma_map_of(es);
                }
                Some(self.entries[f].class)
            },
            None => None,
        }
    }
}

/// Whether `namespace`.`name` spells `key`.
fn spells_key(id: &ClassIdentity, key: &str) -> (res: bool)
    ensures
        res == (dotted(id.namespace@, id.name@) == key@),
{
    proof {
        reveal_strlit(".");
        assert("."@ =~= seq!['.']);
    }
    let mut full = String::from_str(id.namespace.as_str());
    full.append(".");
    full.append(id.name.as_str());
    str_eq(full.as_str(), key)
}

/// The type table, once it has been built.
pub fn get_type_table(table: Option<&TypeTable>) -> (res: Result<&TypeTable, Il2CppError>)
    ensures
        match table {
            Some(t) => res == Ok::<&TypeTable, Il2CppError>(t),
            None => res matches Err(e) && e@ == Il2CppErrorView::TypeTableError,
        },
{
    match table {
        Some(t) => Ok(t),
        None => Err(Il2CppError::TypeTableError),
    }
}

/// Looks up the class filed under `key`, falling back to the class whose
/// identity is `key`, then to the only class whose name ends like `key`.
pub fn get_cached_class(table: Option<&TypeTable>, key: &str) -> (res: Result<
    Il2CppClass,
    Il2CppError,
>)
    requires
        table matches Some(t) ==> t.wf(),
    ensures
        match table {
            None => res matches Err(e) && e@ == Il2CppErrorView::TypeTableError,
            Some(t) => match cached_class(t@, key@) {
                Some(c) => res == Ok::<Il2CppClass, Il2CppError>(c),
                None => res matches Err(e) && e@ == Il2CppErrorView::CachedClassError(key@),
            },
        },
{
    let table = match get_type_table(table) {
        Ok(t) => t,
        Err(e) => return Err(e),
    };
    proof {
        lemma_last_dot(key@);
        lemma_map_of(table.entries@);
    }
    let n = key.unicode_len();
    let dot = find_last_dot(key);
    if let Some(i) = table.position_of(key) {
        let entry = &table.entries[i];
        assert(map_of(table.entries@).contains_key(entry_key(table.entries@[i as int])));
        assert(table@[key@] == entry_value(*entry));
        match dot {
            None => {
                return Ok(entry.class);
            },
            Some(_) => {
                if let Some(id) = &entry.identity {
                    if spells_key(id, key) {
                        return Ok(entry.class);
                    }
                }
            },
        }
    }
    if let Some(d) = dot {
        let namespace = key.substring_char(0, d);
        let name = key.substring_char(d + 1, n);
        if let Some(class) = table.unique_by_identity(namespace, name) {
            return Ok(class);
        }
    }
    let short = last_segment_of(key);
    if let Some(class) = table.unique_by_segment(short) {
        return Ok(class);
    }
    Err(Il2CppError::CachedClassError(String::from_str(key)))
}


/// The name a class is filed under: `namespace.by_value_name`, or the type name
/// alone when the namespace is empty.
pub open spec fn qualified_type_name_of(namespace: Seq<char>, by_value_name: Seq<char>) -> Seq<char> {
    if namespace.len() == 0 {
        by_value_name
    } else {
        dotted(namespace, by_value_name)
    }
}

/// The name a class is filed under.
pub fn qualified_type_name(namespace: &str, by_value_name: &str) -> (res: String)
    ensures
        res@ == qualified_type_name_of(namespace@, by_value_name@),
{
    proof {
        reveal_strlit(".");
        assert("."@ =~= seq!['.']);
    }
    if namespace.unicode_len() == 0 {
        String::from_str(by_value_name)
    } else {
        let mut full = String::from_str(namespace);
        full.append(".");
        full.append(by_value_name);
        full
    }
}

/// A class found while scanning the runtime's images: its namespace, the name of
/// its by-value type, the class and its identity.
pub struct ScannedClass {
    pub namespace: String,
    pub by_value_name: String,
    pub class: Il2CppClass,
    pub identity: Option<ClassIdentity>,
}

/// The table that filing the scanned classes in order gives.
pub open spec fn scanned_map(scanned: Seq<ScannedClass>) -> Map<Seq<char>, EntryValue>
    decreases scanned.len(),
{
    if scanned.len() == 0 {
        Map::empty()
    } else {
        let c = scanned.last();
        scanned_map(scanned.drop_last()).insert(
            qualified_type_name_of(c.namespace@, c.by_value_name@),
            (c.class, identity_view(c.identity)),
        )
    }
}

/// The message of the failure when a scan finds no class.
pub open spec fn empty_scan_message() -> Seq<char> {
    "type table remained empty after metadata scan"@
}

fn copy_identity(id: &Option<ClassIdentity>) -> (res: Option<ClassIdentity>)
    ensures
        identity_view(res) == identity_view(*id),
{
    match id {
        Some(i) => Some(ClassIdentity { namespace: i.namespace.clone(), name: i.name.clone() }),
        None => None,
    }
}

/// Files every scanned class under its qualified name; fails when nothing was found.
pub fn build_type_table(scanned: &Vec<ScannedClass>) -> (res: Result<TypeTable, Il2CppError>)
    ensures
        scanned@.len() == 0 <==> res is Err,
        res matches Ok(t) ==> t.wf() && t@ == scanned_map(scanned@),
        res matches Err(e) ==> e@ == Il2CppErrorView::RuntimeStageFailure(empty_scan_message()),
{
    let mut table = TypeTable::new();
    let mut i: usize = 0;
    while i < scanned.len()
        invariant
            i <= scanned@.len(),
            table.wf(),
            table@ == scanned_map(scanned@.take(i as int)),
        decreases scanned@.len() - i,
    {
        assert(scanned@.take(i + 1).drop_last() =~= scanned@.take(i as int));
        let c = &scanned[i];
        let name = qualified_type_name(c.namespace.as_str(), c.by_value_name.as_str());
        table.insert(name, c.class, copy_identity(&c.identity));
        i = i + 1;
    }
    assert(scanned@.take(scanned@.len() as int) =~= scanned@);
    if table.is_empty() {
        proof {
            if scanned@.len() > 0 {
                lemma_map_of_len(table.entries@);
                let c = scanned@.last();
                let k = qualified_type_name_of(c.namespace@, c.by_value_name@);
                assert(table@.dom().contains(k));
                vstd::set::axiom_set_contains_len(table@.dom(), k);
            }
        }
        return Err(
            Il2CppError::RuntimeStageFailure(
                String::from_str("type table remained empty after metadata scan"),
            ),
        );
    }
    proof {
        if scanned@.len() == 0 {
            assert(table@ =~= Map::<Seq<char>, EntryValue>::empty());
            lemma_map_of_len(table.entries@);
        }
    }
    Ok(table)
}


/// A class filed under a name is what that name looks up, when the name has no
/// `.` or the class's identity spells the name.
pub proof fn lemma_lookup_after_insert(
    m: Map<Seq<char>, EntryValue>,
    key: Seq<char>,
    class: Il2CppClass,
    identity: Option<(Seq<char>, Seq<char>)>,
)
    requires
        !key.contains('.') || (identity matches Some(id) && dotted(id.0, id.1) == key),
    ensures
        cached_class(m.insert(key, (class, identity)), key) == Some(class),
{
}

/// A lookup only ever answers with a class that the table holds.
pub proof fn lemma_lookup_in_table(m: Map<Seq<char>, EntryValue>, key: Seq<char>)
    ensures
        cached_class(m, key) matches Some(c) ==> exists|k: Seq<char>|
            #[trigger] m.contains_key(k) && m[k].0 == c,
{
    let d = last_dot(key);
    let pi = identity_pred(key.subrange(0, d), key.subrange(d + 1, key.len() as int));
    let ps = segment_pred(last_segment(key));
    if m.contains_key(key) {
        assert(m.contains_key(key) && m[key].0 == m[key].0);
    }
    if let Some(k) = unique_key(m, pi) {
        assert(m.contains_key(k));
    }
    if let Some(k) = unique_key(m, ps) {
        assert(m.contains_key(k));
    }
}

/// In an empty table every lookup fails.
pub proof fn lemma_lookup_empty(key: Seq<char>)
    ensures
        cached_class(Map::<Seq<char>, EntryValue>::empty(), key).is_none(),
{
    let m = Map::<Seq<char>, EntryValue>::empty();
    let d = last_dot(key);
    let pi = identity_pred(key.subrange(0, d), key.subrange(d + 1, key.len() as int));
    let ps = segment_pred(last_segment(key));
    assert(unique_key(m, pi).is_none());
    assert(unique_key(m, ps).is_none());
}

/// In a table holding one class, a name without `.` that ends the class's name
/// after a `.` finds that class.
pub proof fn lemma_lookup_by_short_name(
    qualified: Seq<char>,
    class: Il2CppClass,
    identity: Option<(Seq<char>, Seq<char>)>,
    key: Seq<char>,
)
    requires
        !key.contains('.'),
        last_segment(qualified) == key,
    ensures
        cached_class(
            Map::<Seq<char>, EntryValue>::empty().insert(qualified, (class, identity)),
            key,
        ) == Some(class),
{
    let m = Map::<Seq<char>, EntryValue>::empty().insert(qualified, (class, identity));
    lemma_last_dot(key);
    assert(key.subrange(0, key.len() as int) =~= key);
    let ps = segment_pred(last_segment(key));
    assert(m.contains_key(qualified) && ps(qualified, m[qualified]));
    assert forall|k2: Seq<char>| #[trigger] m.contains_key(k2) && ps(k2, m[k2]) implies k2
        == qualified by {}
    let k = choose|k: Seq<char>|
        #[trigger] m.contains_key(k) && ps(k, m[k]) && forall|k2: Seq<char>|
            #[trigger] m.contains_key(k2) && ps(k2, m[k2]) ==> k2 == k;
    assert(k == qualified);
}


/// Filing two classes under different names in either order gives the same
/// lookups.
pub proof fn lemma_filing_order_irrelevant(
    m: Map<Seq<char>, EntryValue>,
    k1: Seq<char>,
    v1: EntryValue,
    k2: Seq<char>,
    v2: EntryValue,
    key: Seq<char>,
)
    requires
        k1 != k2,
    ensures
        cached_class(m.insert(k1, v1).insert(k2, v2), key) == cached_class(
            m.insert(k2, v2).insert(k1, v1),
            key,
        ),
{
    assert(m.insert(k1, v1).insert(k2, v2) =~= m.insert(k2, v2).insert(k1, v1));
}


/// For a key `n.s` whose last part `s` holds no `.`: when the key is not filed
/// with an identity that spells it, and exactly one class in the table has the
/// identity (`n`, `s`), the lookup answers that class, whatever `n` holds
/// (dots included).
pub proof fn lemma_lookup_by_identity(
    m: Map<Seq<char>, EntryValue>,
    n: Seq<char>,
    s: Seq<char>,
    k0: Seq<char>,
)
    requires
        !s.contains('.'),
        m.contains_key(k0),
        m[k0].1 == Some((n, s)),
        forall|k: Seq<char>| #[trigger] m.contains_key(k) && m[k].1 == Some((n, s)) ==> k == k0,
        !(m.contains_key(n + seq!['.'] + s) && (m[n + seq!['.'] + s].1 matches Some(id) && id.0
            + seq!['.'] + id.1 == n + seq!['.'] + s)),
    ensures
        cached_class(m, n + seq!['.'] + s) == Some(m[k0].0),
{
    let key = n + seq!['.'] + s;
    lemma_last_dot(key);
    let d = last_dot(key);
    assert(key[n.len() as int] == '.');
    assert(key.contains('.'));
    if d > n.len() {
        assert(key[d] == s[d - n.len() - 1]);
        assert(s.contains('.'));
    }
    assert(d == n.len());
    assert(key.subrange(0, d) =~= n);
    assert(key.subrange(d + 1, key.len() as int) =~= s);
    let p = identity_pred(n, s);
    assert(m.contains_key(k0) && p(k0, m[k0]));
    assert forall|k2: Seq<char>| #[trigger] m.contains_key(k2) && p(k2, m[k2]) implies k2 == k0 by {}
    let k = choose|k: Seq<char>|
        #[trigger] m.contains_key(k) && p(k, m[k]) && forall|k2: Seq<char>|
            #[trigger] m.contains_key(k2) && p(k2, m[k2]) ==> k2 == k;
    assert(k == k0);
    assert(unique_key(m, p) == Some(k0));
}

/// Classes of the same name in different namespaces are filed under different names.
pub proof fn lemma_namespaces_keep_names_apart(ns1: Seq<char>, ns2: Seq<char>, name: Seq<char>)
    requires
        ns1 != ns2,
    ensures
        qualified_type_name_of(ns1, name) != qualified_type_name_of(ns2, name),
        ns1.len() > 0 ==> qualified_type_name_of(ns1, name) == ns1 + seq!['.'] + name,
        ns1.len() == 0 ==> qualified_type_name_of(ns1, name) == name,
{
    let q1 = qualified_type_name_of(ns1, name);
    let q2 = qualified_type_name_of(ns2, name);
    if ns1.len() > 0 {
        assert(q1 == ns1 + seq!['.'] + name);
        assert(q1.len() == ns1.len() + 1 + name.len());
    }
    if ns2.len() > 0 {
        assert(q2 == ns2 + seq!['.'] + name);
        assert(q2.len() == ns2.len() + 1 + name.len());
    }
    if ns1.len() == 0 && ns2.len() > 0 {
        assert(q1.len() != q2.len());
    }
    if ns2.len() == 0 && ns1.len() > 0 {
        assert(q1.len() != q2.len());
    }
    if ns1.len() == 0 && ns2.len() == 0 {
        assert(ns1 =~= ns2);
    }
    if ns1.len() > 0 && ns2.len() > 0 && q1 == q2 {
        assert(ns1.len() == ns2.len());
        assert forall|i: int| 0 <= i < ns1.len() implies ns1[i] == ns2[i] by {
            assert(q1[i] == ns1[i] && q2[i] == ns2[i]);
        }
        assert(ns1 =~= ns2);
    }
}

/// The name a scanned class is filed under, written out: its namespace, a `.`
/// and its by-value type name, or the bare name when the namespace is empty.
#[verifier::opaque]
pub open spec fn filed_name(c: ScannedClass) -> Seq<char> {
    if c.namespace@.len() == 0 {
        c.by_value_name@
    } else {
        c.namespace@ + seq!['.'] + c.by_value_name@
    }
}

/// After a scan, each scanned class's `filed_name` is filed, holding the last
/// scanned class of that name.
pub proof fn lemma_scanned_map(s: Seq<ScannedClass>)
    ensures
        forall|i: int|
            #![trigger s[i]]
            0 <= i < s.len() ==> scanned_map(s).contains_key(filed_name(s[i])) && exists|j: int|
                #![trigger s[j]]
                i <= j < s.len() && filed_name(s[j]) == filed_name(s[i]) && scanned_map(s)[filed_name(
                    s[i],
                )] == (s[j].class, identity_view(s[j].identity)) && forall|l: int|
                    #![trigger s[l]]
                    j < l < s.len() ==> filed_name(s[l]) != filed_name(s[i]),
    decreases s.len(),
{
    if s.len() > 0 {
        let d = s.drop_last();
        lemma_scanned_map(d);
        assert forall|i: int|
            #![trigger s[i]]
            0 <= i < s.len() implies scanned_map(s).contains_key(filed_name(s[i])) && exists|j: int|
                #![trigger s[j]]
                i <= j < s.len() && filed_name(s[j]) == filed_name(s[i]) && scanned_map(s)[filed_name(
                    s[i],
                )] == (s[j].class, identity_view(s[j].identity)) && forall|l: int|
                    #![trigger s[l]]
                    j < l < s.len() ==> filed_name(s[l]) != filed_name(s[i]) by {
            lemma_scanned_entry(s, i);
        }
    }
}

proof fn lemma_scanned_entry(s: Seq<ScannedClass>, i: int)
    requires
        0 <= i < s.len(),
        forall|i: int|
            #![trigger s.drop_last()[i]]
            0 <= i < s.drop_last().len() ==> scanned_map(s.drop_last()).contains_key(
                filed_name(s.drop_last()[i]),
            ) && exists|j: int|
                #![trigger s.drop_last()[j]]
                i <= j < s.drop_last().len() && filed_name(s.drop_last()[j]) == filed_name(
                    s.drop_last()[i],
                ) && scanned_map(s.drop_last())[filed_name(s.drop_last()[i])] == (
                    s.drop_last()[j].class,
                    identity_view(s.drop_last()[j].identity),
                ) && forall|l: int|
                    #![trigger s.drop_last()[l]]
                    j < l < s.drop_last().len() ==> filed_name(s.drop_last()[l]) != filed_name(
                        s.drop_last()[i],
                    ),
    ensures
        scanned_map(s).contains_key(filed_name(s[i])),
        exists|j: int|
            #![trigger s[j]]
            i <= j < s.len() && filed_name(s[j]) == filed_name(s[i]) && scanned_map(s)[filed_name(
                s[i],
            )] == (s[j].class, identity_view(s[j].identity)) && forall|l: int|
                #![trigger s[l]]
                j < l < s.len() ==> filed_name(s[l]) != filed_name(s[i]),
{
    let d = s.drop_last();
    let last = s.len() - 1;
    let c = s[last];
    let kc = filed_name(c);
    assert(qualified_type_name_of(c.namespace@, c.by_value_name@) == kc) by {
        reveal(filed_name);
    }
    assert(scanned_map(s) == scanned_map(d).insert(kc, (c.class, identity_view(c.identity))));
    let k = filed_name(s[i]);
    if k == kc {
        assert(i <= last && filed_name(s[last]) == k);
    } else {
        assert(i < last);
        assert(d[i] == s[i]);
        let j = choose|j: int|
            #![trigger d[j]]
            i <= j < d.len() && filed_name(d[j]) == filed_name(d[i]) && scanned_map(d)[filed_name(
                d[i],
            )] == (d[j].class, identity_view(d[j].identity)) && forall|l: int|
                #![trigger d[l]]
                j < l < d.len() ==> filed_name(d[l]) != filed_name(d[i]);
        assert(d[j] == s[j]);
        assert forall|l: int| #![trigger s[l]] j < l < s.len() implies filed_name(s[l]) != k by {
            if l < last {
                assert(d[l] == s[l]);
            }
        }
    }
}

/// After a scan, nothing is filed but the scanned classes' `filed_name`s.
pub proof fn lemma_scanned_map_names(s: Seq<ScannedClass>)
    ensures
        forall|k: Seq<char>|
            #[trigger] scanned_map(s).contains_key(k) ==> exists|i: int|
                #![trigger s[i]]
                0 <= i < s.len() && k == filed_name(s[i]),
    decreases s.len(),
{
    if s.len() > 0 {
        let d = s.drop_last();
        lemma_scanned_map_names(d);
        let last = s.len() - 1;
        let c = s[last];
        let kc = filed_name(c);
        assert(qualified_type_name_of(c.namespace@, c.by_value_name@) == kc) by {
            reveal(filed_name);
        }
        assert forall|k: Seq<char>| #[trigger] scanned_map(s).contains_key(k) implies exists|i: int|
            #![trigger s[i]]
            0 <= i < s.len() && k == filed_name(s[i]) by {
            if k != kc {
                assert(scanned_map(d).contains_key(k));
                let i = choose|i: int| #![trigger d[i]] 0 <= i < d.len() && k == filed_name(d[i]);
                assert(d[i] == s[i]);
            } else {
                assert(k == filed_name(s[last]));
            }
        }
    }
}


/// For a name `key` without `.`: a filed name ends in `key` as its last segment
/// exactly when it is `key` or ends with `.` followed by `key`.
pub proof fn lemma_segment_is(k: Seq<char>, key: Seq<char>)
    requires
        !key.contains('.'),
    ensures
        last_segment(k) == key <==> (k == key || (k.len() > key.len() && k[k.len() - key.len()
            - 1] == '.' && k.subrange(k.len() - key.len(), k.len() as int) == key)),
{
    lemma_last_dot(k);
    let d = last_dot(k);
    if last_segment(k) == key {
        if d >= 0 {
            assert(k.len() - key.len() - 1 == d);
        } else {
            assert(k.subrange(0, k.len() as int) =~= k);
        }
    }
    if k == key {
        if d >= 0 {
            assert(key.contains('.')) by {
                assert(key[d] == '.');
            }
        }
        assert(k.subrange(0, k.len() as int) =~= k);
    } else if k.len() > key.len() && k[k.len() - key.len() - 1] == '.' && k.subrange(
        k.len() - key.len(),
        k.len() as int,
    ) == key {
        let e = k.len() - key.len() - 1;
        if d > e {
            assert(key[d - e - 1] == k[d]);
            assert(key.contains('.'));
        }
        assert(d == e);
    }
}

/// A name without `.` that is not filed itself, and that exactly one filed name
/// ends with (after a `.`), finds the class filed there.
pub proof fn lemma_lookup_short_name_unique(
    m: Map<Seq<char>, EntryValue>,
    key: Seq<char>,
    k0: Seq<char>,
)
    requires
        !key.contains('.'),
        !m.contains_key(key),
        m.contains_key(k0),
        k0.len() > key.len(),
        k0[k0.len() - key.len() - 1] == '.',
        k0.subrange(k0.len() - key.len(), k0.len() as int) == key,
        forall|k: Seq<char>|
            #[trigger] m.contains_key(k) && k.len() > key.len() && k[k.len() - key.len() - 1]
                == '.' && k.subrange(k.len() - key.len(), k.len() as int) == key ==> k == k0,
    ensures
        cached_class(m, key) == Some(m[k0].0),
{
    lemma_last_dot(key);
    assert(key.subrange(0, key.len() as int) =~= key);
    let ps = segment_pred(last_segment(key));
    lemma_segment_is(k0, key);
    assert(m.contains_key(k0) && ps(k0, m[k0]));
    assert forall|k2: Seq<char>| #[trigger] m.contains_key(k2) && ps(k2, m[k2]) implies k2
        == k0 by {
        lemma_segment_is(k2, key);
    }
    let k = choose|k: Seq<char>|
        #[trigger] m.contains_key(k) && ps(k, m[k]) && forall|k2: Seq<char>|
            #[trigger] m.contains_key(k2) && ps(k2, m[k2]) ==> k2 == k;
    assert(k == k0);
}

/// A name without `.` that is not filed itself, and that two filed names end
/// with (after a `.`), finds nothing.
pub proof fn lemma_lookup_short_name_ambiguous(
    m: Map<Seq<char>, EntryValue>,
    key: Seq<char>,
    k1: Seq<char>,
    k2: Seq<char>,
)
    requires
        !key.contains('.'),
        !m.contains_key(key),
        k1 != k2,
        m.contains_key(k1),
        m.contains_key(k2),
        k1.len() > key.len(),
        k1[k1.len() - key.len() - 1] == '.',
        k1.subrange(k1.len() - key.len(), k1.len() as int) == key,
        k2.len() > key.len(),
        k2[k2.len() - key.len() - 1] == '.',
        k2.subrange(k2.len() - key.len(), k2.len() as int) == key,
    ensures
        cached_class(m, key).is_none(),
{
    lemma_last_dot(key);
    assert(key.subrange(0, key.len() as int) =~= key);
    let ps = segment_pred(last_segment(key));
    lemma_segment_is(k1, key);
    lemma_segment_is(k2, key);
    assert(ps(k1, m[k1]) && ps(k2, m[k2]));
    if unique_key(m, ps).is_some() {
        let k = choose|k: Seq<char>|
            #[trigger] m.contains_key(k) && ps(k, m[k]) && forall|k3: Seq<char>|
                #[trigger] m.contains_key(k3) && ps(k3, m[k3]) ==> k3 == k;
        assert(k1 == k && k2 == k);
    }
}

} // verus!
