//! The named fields of a task: a map from field name to value that keeps
//! its entries in the order of their names.

use crate::addr::{decimal, decimal_text};
use vstd::prelude::*;
use vstd::string::StringExecFns;
use vstd::string::StringSliceAdditionalSpecFns;
use vstd::utf8::encode_utf8;

verus! {

/// The value of one field.
#[derive(Debug, PartialEq)]
pub enum FieldValue {
    Debug(String),
    Str(String),
    U64(u64),
    I64(i64),
    Bool(bool),
}

/// What a `FieldValue` holds, as plain values.
pub enum FieldValueView {
    Debug(Seq<char>),
    Str(Seq<char>),
    U64(u64),
    I64(i64),
    Bool(bool),
}

impl View for FieldValue {
    type V = FieldValueView;

    open spec fn view(&self) -> FieldValueView {
        match self {
            FieldValue::Debug(s) => FieldValueView::Debug(s@),
            FieldValue::Str(s) => FieldValueView::Str(s@),
            FieldValue::U64(n) => FieldValueView::U64(*n),
            FieldValue::I64(n) => FieldValueView::I64(*n),
            FieldValue::Bool(b) => FieldValueView::Bool(*b),
        }
    }
}

impl Clone for FieldValue {
    fn clone(&self) -> (r: Self)
        ensures
            r == *self,
    {
        match self {
            FieldValue::Debug(s) => FieldValue::Debug(s.clone()),
            FieldValue::Str(s) => FieldValue::Str(s.clone()),
            FieldValue::U64(n) => FieldValue::U64(*n),
            FieldValue::I64(n) => FieldValue::I64(*n),
            FieldValue::Bool(b) => FieldValue::Bool(*b),
        }
    }
}

/// The text that shows a value: a text as it is, a number as its decimal
/// numeral, with a minus sign where it is negative, a truth value as `true`
/// or `false`.
pub open spec fn value_text(value: FieldValueView) -> Seq<char> {
    match value {
        FieldValueView::Debug(s) => s,
        FieldValueView::Str(s) => s,
        FieldValueView::U64(n) => decimal_text(n as nat),
        FieldValueView::I64(n) => if n < 0 {
            "-"@ + decimal_text((-n) as nat)
        } else {
            decimal_text(n as nat)
        },
        FieldValueView::Bool(b) => if b {
            "true"@
        } else {
            "false"@
        },
    }
}

impl FieldValue {
    /// The text that shows the value.
    pub fn to_text(&self) -> (r: String)
        ensures
            r@ == value_text(self@),
    {
        match self {
            FieldValue::Debug(s) => s.clone(),
            FieldValue::Str(s) => s.clone(),
            FieldValue::U64(n) => decimal(*n),
            FieldValue::I64(n) => {
                if *n < 0 {
                    let magnitude: u64 = (-(*n + 1)) as u64 + 1;
                    let mut s = "-".to_owned();
                    s.append(decimal(magnitude).as_str());
                    s
                } else {
                    decimal(*n as u64)
                }
            },
            FieldValue::Bool(b) => {
                if *b {
                    "true".to_owned()
                } else {
                    "false".to_owned()
                }
            },
        }
    }
}

/// One entry of a `FieldMap`.
#[derive(Debug, PartialEq)]
pub struct Field {
    pub name: String,
    pub value: FieldValue,
}

impl Clone for Field {
    fn clone(&self) -> (r: Self)
        ensures
            r == *self,
    {
        Field { name: self.name.clone(), value: self.value.clone() }
    }
}

/// Whether the bytes `a` come before the bytes `b` in dictionary order.
pub open spec fn bytes_before(a: Seq<u8>, b: Seq<u8>) -> bool
    decreases a.len(),
{
    if b.len() == 0 {
        false
    } else if a.len() == 0 {
        true
    } else if a[0] != b[0] {
        a[0] < b[0]
    } else {
        bytes_before(a.drop_first(), b.drop_first())
    }
}

/// Whether the name `a` sorts before the name `b`: the order of their
/// UTF-8 bytes, which is the order in which strings compare.
pub open spec fn name_before(a: Seq<char>, b: Seq<char>) -> bool {
    bytes_before(encode_utf8(a), encode_utf8(b))
}

/// No bytes come before themselves.
pub proof fn lemma_bytes_before_irreflexive(a: Seq<u8>)
    ensures
        !bytes_before(a, a),
    decreases a.len(),
{
    if a.len() > 0 {
        lemma_bytes_before_irreflexive(a.drop_first());
    }
}

/// The dictionary order is transitive.
pub proof fn lemma_bytes_before_transitive(a: Seq<u8>, b: Seq<u8>, c: Seq<u8>)
    requires
        bytes_before(a, b),
        bytes_before(b, c),
    ensures
        bytes_before(a, c),
    decreases a.len(),
{
    if a.len() > 0 && a[0] == b[0] && b[0] == c[0] {
        lemma_bytes_before_transitive(a.drop_first(), b.drop_first(), c.drop_first());
    }
}

/// Names with the same bytes are the same name.
pub proof fn lemma_same_bytes_same_name(a: Seq<char>, b: Seq<char>)
    requires
        encode_utf8(a) == encode_utf8(b),
    ensures
        a == b,
{
    vstd::utf8::encode_utf8_decode_utf8(a);
    vstd::utf8::encode_utf8_decode_utf8(b);
}

/// How one name stands to another in the order of names.
#[derive(Debug, Clone, Copy, PartialEq, Eq)]
pub enum NameOrder {
    Before,
    Same,
    After,
}

/// How the name `a` stands to the name `b`.
pub open spec fn name_order(a: Seq<char>, b: Seq<char>) -> NameOrder {
    if a == b {
        NameOrder::Same
    } else if name_before(a, b) {
        NameOrder::Before
    } else {
        NameOrder::After
    }
}

/// Compares two names byte by byte.
pub fn compare_names(a: &str, b: &str) -> (r: NameOrder)
    ensures
        r == name_order(a@, b@),
        r == NameOrder::After ==> name_before(b@, a@),
{
    let x = a.as_bytes();
    let y = b.as_bytes();
    let mut i: usize = 0;
    assert(x@.skip(0) =~= x@);
    assert(y@.skip(0) =~= y@);
    while i < x.len() && i < y.len()
        invariant
            i <= x.len(),
            i <= y.len(),
            x@ == encode_utf8(a@),
            y@ == encode_utf8(b@),
            bytes_before(x@, y@) == bytes_before(x@.skip(i as int), y@.skip(i as int)),
            bytes_before(y@, x@) == bytes_before(y@.skip(i as int), x@.skip(i as int)),
            (x@ == y@) == (x@.skip(i as int) == y@.skip(i as int)),
        decreases x.len() - i,
    {
        let ghost xs = x@.skip(i as int);
        let ghost ys = y@.skip(i as int);
        assert(xs.drop_first() =~= x@.skip(i + 1));
        assert(ys.drop_first() =~= y@.skip(i + 1));
        assert(xs[0] == x@[i as int] && ys[0] == y@[i as int]);
        if x[i] != y[i] {
            proof {
                lemma_bytes_before_irreflexive(encode_utf8(a@));
            }
            if x[i] < y[i] {
                return NameOrder::Before;
            } else {
                return NameOrder::After;
            }
        }
        proof {
            if xs.drop_first() == ys.drop_first() {
                assert(xs =~= seq![xs[0]] + xs.drop_first());
                assert(ys =~= seq![ys[0]] + ys.drop_first());
            }
        }
        i += 1;
    }
    proof {
        lemma_bytes_before_irreflexive(encode_utf8(a@));
        if x@ == y@ {
            lemma_same_bytes_same_name(a@, b@);
        }
    }
    if x.len() == y.len() {
        assert(x@.skip(i as int) =~= y@.skip(i as int));
        NameOrder::Same
    } else if x.len() < y.len() {
        NameOrder::Before
    } else {
        NameOrder::After
    }
}

/// Whether the names of `entries` strictly increase.
pub open spec fn names_increase(entries: Seq<Field>) -> bool {
    forall|i: int, j: int|
        0 <= i < j < entries.len() ==> name_before(
            #[trigger] entries[i].name@,
            #[trigger] entries[j].name@,
        )
}

/// The map that `entries` stand for: each name with the value of the
/// first entry that carries it.
pub open spec fn map_of(entries: Seq<Field>) -> Map<Seq<char>, FieldValueView> {
    Map::new(
        |k: Seq<char>| exists|i: int| 0 <= i < entries.len() && #[trigger] entries[i].name@ == k,
        |k: Seq<char>|
            entries[choose|i: int| 0 <= i < entries.len() && #[trigger] entries[i].name@
                == k].value@,
    )
}

/// Where names strictly increase, every entry is found under its name.
pub proof fn lemma_map_of_entries(entries: Seq<Field>)
    requires
        names_increase(entries),
    ensures
        forall|i: int|
            0 <= i < entries.len() ==> map_of(entries).contains_key(#[trigger] entries[i].name@)
                && map_of(entries)[entries[i].name@] == entries[i].value@,
{
    assert forall|i: int| 0 <= i < entries.len() implies map_of(entries).contains_key(
        #[trigger] entries[i].name@,
    ) && map_of(entries)[entries[i].name@] == entries[i].value@ by {
        let k = entries[i].name@;
        let j = choose|j: int| 0 <= j < entries.len() && #[trigger] entries[j].name@ == k;
        lemma_bytes_before_irreflexive(encode_utf8(k));
        assert(j == i);
    }
}

/// Replacing the value of an entry keeps the names in order and puts the
/// new value under the entry's name.
proof fn lemma_replaced(before: Seq<Field>, after: Seq<Field>, i: int)
    requires
        names_increase(before),
        0 <= i < before.len(),
        after == before.update(i, after[i]),
        after.len() == before.len(),
        after[i].name@ == before[i].name@,
    ensures
        names_increase(after),
        map_of(after) == map_of(before).insert(after[i].name@, after[i].value@),
{
    let k = after[i].name@;
    let wanted = map_of(before).insert(k, after[i].value@);
    assert forall|a: int, b: int| 0 <= a < b < after.len() implies name_before(
        #[trigger] after[a].name@,
        #[trigger] after[b].name@,
    ) by {
        assert(after[a].name@ == before[a].name@);
        assert(after[b].name@ == before[b].name@);
    }
    lemma_map_of_entries(before);
    lemma_map_of_entries(after);
    lemma_bytes_before_irreflexive(encode_utf8(k));
    assert forall|q: Seq<char>| map_of(after).contains_key(q) implies #[trigger] wanted.contains_key(
        q,
    ) && map_of(after)[q] == wanted[q] by {
        let j = choose|j: int| 0 <= j < after.len() && #[trigger] after[j].name@ == q;
        assert(before[j].name@ == q);
        if j < i {
            assert(after[j] == before[j]);
            assert(name_before(before[j].name@, before[i].name@));
        } else if j > i {
            assert(after[j] == before[j]);
            assert(name_before(before[i].name@, before[j].name@));
        }
    }
    assert forall|q: Seq<char>| #[trigger] wanted.contains_key(q) implies map_of(
        after,
    ).contains_key(q) by {
        if q == k {
            assert(after[i].name@ == q);
        } else {
            let j = choose|j: int| 0 <= j < before.len() && #[trigger] before[j].name@ == q;
            assert(after[j].name@ == q);
        }
    }
    assert(map_of(after) =~= wanted);
}

/// Putting a new entry between the names before it and the names after it
/// keeps the names in order and adds the entry to the map.
proof fn lemma_inserted(before: Seq<Field>, after: Seq<Field>, i: int)
    requires
        names_increase(before),
        0 <= i <= before.len(),
        after == before.insert(i, after[i]),
        forall|j: int| 0 <= j < i ==> name_before((#[trigger] before[j]).name@, after[i].name@),
        i < before.len() ==> name_before(after[i].name@, before[i].name@),
    ensures
        names_increase(after),
        map_of(after) == map_of(before).insert(after[i].name@, after[i].value@),
{
    let k = after[i].name@;
    let wanted = map_of(before).insert(k, after[i].value@);
    assert forall|j: int| i <= j < before.len() implies name_before(
        k,
        #[trigger] before[j].name@,
    ) by {
        if j > i {
            assert(name_before(before[i].name@, before[j].name@));
            lemma_bytes_before_transitive(
                encode_utf8(k),
                encode_utf8(before[i].name@),
                encode_utf8(before[j].name@),
            );
        }
    }
    assert forall|a: int, b: int| 0 <= a < b < after.len() implies name_before(
        #[trigger] after[a].name@,
        #[trigger] after[b].name@,
    ) by {
        if b < i {
            assert(after[a] == before[a] && after[b] == before[b]);
        } else if b == i {
            assert(after[a] == before[a]);
        } else if a < i {
            assert(after[a] == before[a] && after[b] == before[b - 1]);
            lemma_bytes_before_transitive(
                encode_utf8(before[a].name@),
                encode_utf8(k),
                encode_utf8(before[b - 1].name@),
            );
        } else if a == i {
            assert(after[b] == before[b - 1]);
        } else {
            assert(after[a] == before[a - 1] && after[b] == before[b - 1]);
        }
    }
    lemma_map_of_entries(before);
    lemma_map_of_entries(after);
    lemma_bytes_before_irreflexive(encode_utf8(k));
    assert forall|q: Seq<char>| map_of(after).contains_key(q) implies #[trigger] wanted.contains_key(
        q,
    ) && map_of(after)[q] == wanted[q] by {
        let j = choose|j: int| 0 <= j < after.len() && #[trigger] after[j].name@ == q;
        if j < i {
            assert(after[j] == before[j]);
        } else if j > i {
            assert(after[j] == before[j - 1]);
        }
    }
    assert forall|q: Seq<char>| #[trigger] wanted.contains_key(q) implies map_of(
        after,
    ).contains_key(q) by {
        if q == k {
            assert(after[i].name@ == q);
        } else {
            let j = choose|j: int| 0 <= j < before.len() && #[trigger] before[j].name@ == q;
            if j < i {
                assert(after[j].name@ == q);
            } else {
                assert(after[j + 1].name@ == q);
            }
        }
    }
    assert(map_of(after) =~= wanted);
}

/// A map from field name to value. No name occurs twice and the entries
/// stand in the order of their names.
#[derive(Debug, PartialEq)]
pub struct FieldMap {
    entries: Vec<Field>,
}

impl View for FieldMap {
    type V = Map<Seq<char>, FieldValueView>;

    closed spec fn view(&self) -> Map<Seq<char>, FieldValueView> {
        map_of(self.entries@)
    }
}

impl Clone for FieldMap {
    fn clone(&self) -> (r: Self)
        ensures
            r@ == self@,
            r.names() == self.names(),
    {
        proof {
            use_type_invariant(self);
        }
        let mut entries: Vec<Field> = Vec::new();
        let mut i: usize = 0;
        while i < self.entries.len()
            invariant
                i <= self.entries.len(),
                entries@ == self.entries@.take(i as int),
            decreases self.entries.len() - i,
        {
            entries.push(self.entries[i].clone());
            i += 1;
        }
        assert(entries@ == self.entries@);
        FieldMap { entries }
    }
}

impl FieldMap {
    #[verifier::type_invariant]
    spec fn ordered(self) -> bool {
        names_increase(self.entries@)
    }

    /// The names in the order in which the entries stand.
    pub closed spec fn names(&self) -> Seq<Seq<char>> {
        self.entries@.map_values(|f: Field| f.name@)
    }

    /// A map without entries.
    pub fn new() -> (m: FieldMap)
        ensures
            m@ == Map::<Seq<char>, FieldValueView>::empty(),
            m.names() == Seq::<Seq<char>>::empty(),
    {
        let m = FieldMap { entries: Vec::new() };
        assert(m@ =~= Map::<Seq<char>, FieldValueView>::empty());
        assert(m.names() =~= Seq::<Seq<char>>::empty());
        m
    }

    /// The number of entries.
    pub fn len(&self) -> (n: usize)
        ensures
            n == self.names().len(),
            n == self@.len(),
            self@.dom().finite(),
            self.names().no_duplicates(),
            self.names().to_set() == self@.dom(),
            forall|i: int, j: int|
                0 <= i < j < n ==> name_before(
                    #[trigger] self.names()[i],
                    #[trigger] self.names()[j],
                ),
    {
        proof {
            use_type_invariant(self);
            self.lemma_names();
        }
        self.entries.len()
    }

    /// The entry at place `i` in the order of names.
    pub fn entry(&self, i: usize) -> (r: (&String, &FieldValue))
        requires
            i < self.names().len(),
        ensures
            r.0@ == self.names()[i as int],
            self@.contains_key(r.0@),
            r.1@ == self@[r.0@],
    {
        proof {
            use_type_invariant(self);
            lemma_map_of_entries(self.entries@);
        }
        let f = &self.entries[i];
        (&f.name, &f.value)
    }

    /// The value under `name`, if there is one.
    pub fn get(&self, name: &str) -> (r: Option<&FieldValue>)
        ensures
            r is Some <==> self@.contains_key(name@),
            r matches Some(v) ==> v@ == self@[name@],
    {
        proof {
            use_type_invariant(self);
            lemma_map_of_entries(self.entries@);
        }
        let mut i: usize = 0;
        while i < self.entries.len()
            invariant
                i <= self.entries.len(),
                forall|j: int| 0 <= j < i ==> (#[trigger] self.entries@[j]).name@ != name@,
                forall|j: int|
                    0 <= j < self.entries.len() ==> map_of(self.entries@).contains_key(
                        #[trigger] self.entries@[j].name@,
                    ) && map_of(self.entries@)[self.entries@[j].name@] == self.entries@[j].value@,
            decreases self.entries.len() - i,
        {
            match compare_names(self.entries[i].name.as_str(), name) {
                NameOrder::Same => {
                    return Some(&self.entries[i].value);
                },
                _ => {},
            }
            i += 1;
        }
        None
    }

    /// Puts `value` under `name`, in place of any value that was there.
    pub fn insert(&mut self, name: String, value: FieldValue)
        ensures
            final(self)@ == old(self)@.insert(name@, value@),
    {
        proof {
            use_type_invariant(&*self);
            lemma_map_of_entries(self.entries@);
        }
        let ghost before = self.entries@;
        let ghost k = name@;
        let ghost wanted = map_of(before).insert(k, value@);
        let mut entries: Vec<Field> = Vec::new();
        std::mem::swap(&mut self.entries, &mut entries);
        let n: usize = entries.len();
        let mut i: usize = 0;
        let mut found: bool = false;
        while i < n
            invariant_except_break
                !found,
            invariant
                n == entries.len(),
                entries@ == before,
                k == name@,
                i <= n,
                forall|j: int| 0 <= j < i ==> name_before((#[trigger] before[j]).name@, k),
            ensures
                i <= n,
                found ==> i < n && before[i as int].name@ == k,
                !found && i < n ==> name_before(k, before[i as int].name@),
            decreases n - i,
        {
            match compare_names(entries[i].name.as_str(), name.as_str()) {
                NameOrder::Before => {},
                NameOrder::Same => {
                    found = true;
                    break;
                },
                NameOrder::After => {
                    break;
                },
            }
            i += 1;
        }
        if found {
            entries.set(i, Field { name, value });
            proof {
                lemma_replaced(before, entries@, i as int);
            }
        } else {
            entries.insert(i, Field { name, value });
            proof {
                lemma_inserted(before, entries@, i as int);
            }
        }
        assert(map_of(entries@) == wanted);
        std::mem::swap(&mut self.entries, &mut entries);
    }

    /// What the type keeps true of the names, stated over the view.
    proof fn lemma_names(self)
        requires
            names_increase(self.entries@),
        ensures
            self.names().len() == self.entries@.len(),
            self@.dom().finite(),
            self@.len() == self.names().len(),
            self.names().no_duplicates(),
            self.names().to_set() == self@.dom(),
            forall|i: int, j: int|
                0 <= i < j < self.names().len() ==> name_before(
                    #[trigger] self.names()[i],
                    #[trigger] self.names()[j],
                ),
    {
        let names = self.names();
        assert forall|i: int, j: int| 0 <= i < j < names.len() implies name_before(
            #[trigger] names[i],
            #[trigger] names[j],
        ) by {
            assert(name_before(self.entries@[i].name@, self.entries@[j].name@));
        }
        assert forall|i: int, j: int| 0 <= i < names.len() && 0 <= j < names.len() && i != j
            implies names[i] != names[j] by {
            lemma_bytes_before_irreflexive(encode_utf8(names[i]));
            if i < j {
                assert(name_before(names[i], names[j]));
            } else {
                assert(name_before(names[j], names[i]));
            }
        }
        assert(names.to_set() =~= self@.dom()) by {
            assert forall|q: Seq<char>| names.to_set().contains(q)
                implies self@.dom().contains(q) by {
                let i = choose|i: int| 0 <= i < names.len() && names[i] == q;
                assert(self.entries@[i].name@ == q);
            }
            assert forall|q: Seq<char>| self@.dom().contains(q)
                implies names.to_set().contains(q) by {
                let i = choose|i: int| 0 <= i < self.entries@.len()
                    && #[trigger] self.entries@[i].name@ == q;
                assert(names[i] == q);
            }
        }
        names.unique_seq_to_set();
    }
}

} // verus!
