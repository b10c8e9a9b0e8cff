use vstd::prelude::*;

verus! {

/// An instant, as nanoseconds since the Unix epoch.
#[derive(Debug, Clone, Copy, PartialEq, Eq, Structural)]
pub struct Timestamp {
    pub nanos: i128,
}

impl Timestamp {
    /// The instant `nanos` nanoseconds after the Unix epoch.
    pub fn from_unix_nanos(nanos: u64) -> (r: Timestamp)
        ensures
            r.nanos == nanos as int,
    {
        Timestamp { nanos: nanos as i128 }
    }
}

/// The canonical value of an event field.
#[derive(Debug)]
pub enum Value {
    Null,
    Boolean(bool),
    Integer(i64),
    /// Text held as UTF-8.
    Text(String),
    Timestamp(Timestamp),
    Array(Vec<Value>),
    Object(ObjectMap),
}

/// A mapping from field names to values, with each name at most once.
#[derive(Debug)]
pub struct ObjectMap {
    pub entries: Vec<(String, Value)>,
}

/// The position of the entry named `key`, if any.
pub open spec fn key_index(entries: Seq<(String, Value)>, key: Seq<char>) -> int
    decreases entries.len(),
{
    if entries.len() == 0 {
        -1
    } else if entries.last().0@ == key {
        entries.len() - 1
    } else {
        key_index(entries.drop_last(), key)
    }
}

proof fn lemma_key_index(entries: Seq<(String, Value)>, key: Seq<char>)
    ensures
        -1 <= key_index(entries, key) < entries.len(),
        key_index(entries, key) >= 0 ==> entries[key_index(entries, key)].0@ == key,
        key_index(entries, key) == -1 ==> forall|i: int|
            0 <= i < entries.len() ==> entries[i].0@ != key,
    decreases entries.len(),
{
    if entries.len() > 0 {
        lemma_key_index(entries.drop_last(), key);
        assert forall|i: int| 0 <= i < entries.len() - 1 implies entries[i] == entries.drop_last()[i] by {}
    }
}

pub open spec fn keys_unique(entries: Seq<(String, Value)>) -> bool {
    forall|i: int, j: int|
        0 <= i < entries.len() && 0 <= j < entries.len() && i != j ==> entries[i].0@
            != entries[j].0@
}

impl ObjectMap {
    pub open spec fn wf(&self) -> bool {
        keys_unique(self.entries@)
    }

    /// The value stored under `key`, if any.
    pub open spec fn spec_get(&self, key: Seq<char>) -> Option<Value> {
        let i = key_index(self.entries@, key);
        if i >= 0 {
            Some(self.entries@[i].1)
        } else {
            None
        }
    }

    pub fn new() -> (r: ObjectMap)
        ensures
            r.wf(),
            r.entries@.len() == 0,
    {
        ObjectMap { entries: Vec::new() }
    }

    fn find(&self, key: &str) -> (r: Option<usize>)
        ensures
            r is Some <==> key_index(self.entries@, key@) >= 0,
            r is Some ==> r->0 == key_index(self.entries@, key@) && r->0 < self.entries@.len(),
    {
        proof {
            lemma_key_index(self.entries@, key@);
        }
        let wanted = String::from_str(key);
        let mut i: usize = self.entries.len();
        while i > 0
            invariant
                i <= self.entries@.len(),
                wanted@ == key@,
                key_index(self.entries@, key@) < i as int,
                forall|k: int| i <= k < self.entries@.len() ==> self.entries@[k].0@ != key@,
                -1 <= key_index(self.entries@, key@) < self.entries@.len(),
                key_index(self.entries@, key@) >= 0 ==> self.entries@[key_index(
                    self.entries@,
                    key@,
                )].0@ == key@,
                key_index(self.entries@, key@) == -1 ==> forall|k: int|
                    0 <= k < self.entries@.len() ==> self.entries@[k].0@ != key@,
            decreases i,
        {
            let ghost s = self.entries@;
            let found: bool = self.entries[i - 1].0.eq(&wanted);
            if found {
                proof {
                    lemma_key_last_match(s, key@, i as int - 1);
                }
                return Some(i - 1);
            }
            i = i - 1;
        }
        None
    }

    /// The value stored under `key`, if any.
    pub fn get(&self, key: &str) -> (r: Option<&Value>)
        ensures
            r matches Some(v) ==> self.spec_get(key@) == Some(*v),
            r is None ==> self.spec_get(key@) is None,
    {
        proof {
            lemma_key_index(self.entries@, key@);
        }
        match self.find(key) {
            Some(i) => Some(&self.entries[i].1),
            None => None,
        }
    }

    /// Stores `value` under `key`, replacing what was there.
    pub fn insert(&mut self, key: String, value: Value)
        requires
            old(self).wf(),
        ensures
            final(self).wf(),
            final(self).spec_get(key@) == Some(value),
            forall|k: Seq<char>| k != key@ ==> final(self).spec_get(k) == old(self).spec_get(k),
            old(self).spec_get(key@) is None ==> final(self).entries@ == old(self).entries@.push(
                (key, value),
            ),
    {
        proof {
            lemma_key_index(self.entries@, key@);
        }
        let ghost s0 = self.entries@;
        match self.find(key.as_str()) {
            Some(i) => {
                self.entries.set(i, (key, value));
                proof {
                    assert forall|k: Seq<char>| k != key@ implies #[trigger] self.spec_get(k)
                        == old(self).spec_get(k) by {
                        lemma_key_index_update(s0, i as int, (key, value), k);
                        lemma_key_index(s0, k);
                    }
                    assert forall|a: int, b: int|
                        0 <= a < self.entries@.len() && 0 <= b < self.entries@.len() && a != b
                            implies self.entries@[a].0@ != self.entries@[b].0@ by {
                        if a != i && b != i {
                            assert(s0[a].0@ != s0[b].0@);
                        } else if a == i {
                            assert(s0[i as int].0@ != s0[b].0@);
                        } else {
                            assert(s0[a].0@ != s0[i as int].0@);
                        }
                    }
                    lemma_key_unique_index(self.entries@, i as int);
                }
            },
            None => {
                self.entries.push((key, value));
                proof {
                    assert(self.entries@.drop_last() =~= s0);
                    assert forall|k: Seq<char>| k != key@ implies #[trigger] self.spec_get(k)
                        == old(self).spec_get(k) by {
                        lemma_key_index(s0, k);
                    }
                }
            },
        }
    }

    /// Builds a map from name and value pairs; a later pair replaces an earlier
    /// one with the same name.
    pub fn from_pairs(pairs: Vec<(String, Value)>) -> (r: ObjectMap)
        ensures
            r.wf(),
            forall|k: Seq<char>| #[trigger] r.spec_get(k) == pairs_get(pairs@, k),
    {
        let mut map = ObjectMap::new();
        let mut rest = pairs;
        let ghost all = pairs@;
        let ghost mut taken: Seq<(String, Value)> = Seq::empty();
        while rest.len() > 0
            invariant
                map.wf(),
                all == taken + rest@,
                forall|k: Seq<char>| #[trigger] map.spec_get(k) == pairs_get(taken, k),
            decreases rest.len(),
        {
            let ghost r0 = rest@;
            let ghost t0 = taken;
            let (k, v) = rest.remove(0);
            proof {
                taken = taken.push((k, v));
                assert(r0 =~= seq![(k, v)] + rest@);
                assert(taken + rest@ =~= t0 + r0);
                assert(taken.drop_last() =~= t0);
            }
            map.insert(k, v);
        }
        proof {
            assert(taken =~= all);
        }
        map
    }
}

/// The value that the last pair named `key` gives, if any.
pub open spec fn pairs_get(pairs: Seq<(String, Value)>, key: Seq<char>) -> Option<Value>
    decreases pairs.len(),
{
    if pairs.len() == 0 {
        None
    } else if pairs.last().0@ == key {
        Some(pairs.last().1)
    } else {
        pairs_get(pairs.drop_last(), key)
    }
}

proof fn lemma_key_last_match(s: Seq<(String, Value)>, key: Seq<char>, i: int)
    requires
        0 <= i < s.len(),
        s[i].0@ == key,
        forall|k: int| i < k < s.len() ==> s[k].0@ != key,
    ensures
        key_index(s, key) == i,
    decreases s.len(),
{
    if s.len() - 1 != i {
        lemma_key_last_match(s.drop_last(), key, i);
    }
}

proof fn lemma_key_index_update(s: Seq<(String, Value)>, i: int, e: (String, Value), k: Seq<char>)
    requires
        0 <= i < s.len(),
        s[i].0@ == e.0@,
        k != e.0@,
    ensures
        key_index(s.update(i, e), k) == key_index(s, k),
    decreases s.len(),
{
    if s.len() - 1 != i {
        assert(s.update(i, e).drop_last() =~= s.drop_last().update(i, e));
        lemma_key_index_update(s.drop_last(), i, e, k);
    } else {
        assert(s.update(i, e).drop_last() =~= s.drop_last());
    }
}

proof fn lemma_key_unique_index(s: Seq<(String, Value)>, i: int)
    requires
        0 <= i < s.len(),
        keys_unique(s),
    ensures
        key_index(s, s[i].0@) == i,
{
    lemma_key_last_match(s, s[i].0@, i);
}

} // verus!

verus! {

/// Structural equality: arrays element by element in order, objects by the
/// value under each name whatever the order of their entries.
pub open spec fn value_eq(a: Value, b: Value) -> bool
    decreases a,
{
    match a {
        Value::Null => b is Null,
        Value::Boolean(x) => b == Value::Boolean(x),
        Value::Integer(x) => b == Value::Integer(x),
        Value::Text(x) => b matches Value::Text(y) && x@ == y@,
        Value::Timestamp(x) => b == Value::Timestamp(x),
        Value::Array(x) => b matches Value::Array(y) && x@.len() == y@.len() && forall|i: int|
            0 <= i < x@.len() ==> value_eq(#[trigger] x@[i], y@[i]),
        Value::Object(x) => b matches Value::Object(y) && x.entries@.len() == y.entries@.len()
            && forall|i: int|
            0 <= i < x.entries@.len() ==> {
                let j = key_index(y.entries@, (#[trigger] x.entries@[i]).0@);
                j >= 0 && value_eq(x.entries@[i].1, y.entries@[j].1)
            },
    }
}

impl Value {
    /// Whether two values are structurally equal.
    pub fn equals(&self, other: &Value) -> (r: bool)
        ensures
            r == value_eq(*self, *other),
        decreases self,
    {
        match self {
            Value::Null => matches!(other, Value::Null),
            Value::Boolean(x) => match other {
                Value::Boolean(y) => *x == *y,
                _ => false,
            },
            Value::Integer(x) => match other {
                Value::Integer(y) => *x == *y,
                _ => false,
            },
            Value::Text(x) => match other {
                Value::Text(y) => x.eq(y),
                _ => false,
            },
            Value::Timestamp(x) => match other {
                Value::Timestamp(y) => x.nanos == y.nanos,
                _ => false,
            },
            Value::Array(x) => match other {
                Value::Array(y) => {
                    if x.len() != y.len() {
                        return false;
                    }
                    let mut i: usize = 0;
                    while i < x.len()
                        invariant
                            i <= x@.len(),
                            x@.len() == y@.len(),
                            *self == Value::Array(*x),
                            *other == Value::Array(*y),
                            forall|k: int| 0 <= k < i ==> value_eq(#[trigger] x@[k], y@[k]),
                        decreases x@.len() - i,
                    {
                        proof {
                            broadcast use vstd::std_specs::vec::axiom_vec_index_decreases;

                            assert(decreases_to!(*self => (*self)->Array_0));
                            assert(decreases_to!(*x => x[i as int]));
                            assert(decreases_to!(*self => x@[i as int]));
                        }
                        if !x[i].equals(&y[i]) {
                            assert(!value_eq(x@[i as int], y@[i as int]));
                            return false;
                        }
                        i = i + 1;
                    }
                    true
                },
                _ => false,
            },
            Value::Object(x) => match other {
                Value::Object(y) => {
                    if x.entries.len() != y.entries.len() {
                        return false;
                    }
                    let mut i: usize = 0;
                    while i < x.entries.len()
                        invariant
                            i <= x.entries@.len(),
                            x.entries@.len() == y.entries@.len(),
                            *self == Value::Object(*x),
                            *other == Value::Object(*y),
                            forall|k: int|
                                0 <= k < i ==> {
                                    let j = key_index(y.entries@, (#[trigger] x.entries@[k]).0@);
                                    j >= 0 && value_eq(x.entries@[k].1, y.entries@[j].1)
                                },
                        decreases x.entries@.len() - i,
                    {
                        let entry = &x.entries[i];
                        proof {
                            broadcast use vstd::std_specs::vec::axiom_vec_index_decreases;

                            assert(decreases_to!(*self => (*self)->Object_0));
                            assert(decreases_to!(*x => x.entries));
                            assert(decreases_to!(x.entries => x.entries[i as int]));
                            assert(decreases_to!(x.entries[i as int] => x.entries[i as int].1));
                            assert(decreases_to!(*self => x.entries@[i as int].1));
                        }
                        match y.find(entry.0.as_str()) {
                            Some(j) => {
                                if !entry.1.equals(&y.entries[j].1) {
                                    assert(key_index(y.entries@, x.entries@[i as int].0@) == j);
                                    return false;
                                }
                            },
                            None => {
                                return false;
                            },
                        }
                        i = i + 1;
                    }
                    true
                },
                _ => false,
            },
        }
    }
}

/// A canonical log event: an object of fields, and the handle of the batch
/// whose finalizer tracks it, once one is attached.
#[derive(Debug)]
pub struct LogEvent {
    pub fields: ObjectMap,
    pub batch: Option<usize>,
}

impl LogEvent {
    pub open spec fn wf(&self) -> bool {
        self.fields.wf()
    }

    /// An event holding `fields`, not yet attached to a batch.
    pub fn from_map(fields: ObjectMap) -> (r: LogEvent)
        ensures
            r.fields == fields,
            r.batch is None,
    {
        LogEvent { fields, batch: None }
    }

    /// The value of the field `key`, if any.
    pub fn get(&self, key: &str) -> (r: Option<&Value>)
        ensures
            r matches Some(v) ==> self.fields.spec_get(key@) == Some(*v),
            r is None ==> self.fields.spec_get(key@) is None,
    {
        self.fields.get(key)
    }
}

} // verus!
