use vstd::prelude::*;

verus! {

/// Stands for a floating-point number of the engine: its bit pattern, with
/// which no arithmetic is done here.
#[derive(Clone, Copy, Debug, PartialEq, Eq, Structural)]
pub struct Real {
    /// The bits of the number.
    pub bits: u64,
}

/// The type that the engine holds the elements of an array to.
#[derive(Clone, Copy, Debug, PartialEq, Eq, Structural)]
pub enum ElementType {
    /// Any value: the array is untyped.
    Any,
    Bool,
    Int,
    Real,
    Text,
    Vector2,
    Dictionary,
    /// Handles to objects of the class with this index.
    Object(usize),
}

/// A dynamically typed value of the engine.
#[derive(Debug)]
pub enum Variant {
    /// Nothing.
    Nil,
    /// A truth value.
    Bool(bool),
    /// An integer.
    Int(i64),
    /// A floating-point number.
    Real(Real),
    /// A string.
    Text(String),
    /// A vector of two floating-point numbers.
    Vector2(Real, Real),
    /// An array of values, with the type that the engine holds its
    /// elements to.
    Array(ElementType, Vec<Variant>),
    /// A dictionary from strings to values.
    Dictionary(Dictionary),
    /// A reference to the object with this instance id.
    Object(u64),
}

/// A dictionary from strings to values, in order of insertion.
#[derive(Debug)]
pub struct Dictionary {
    entries: Vec<(String, Variant)>,
}

/// What a `Variant` holds, as a mathematical value.
pub enum VariantView {
    Nil,
    Bool(bool),
    Int(i64),
    Real(Real),
    Text(Seq<char>),
    Vector2(Real, Real),
    Array(ElementType, Seq<VariantView>),
    Dictionary(Seq<(Seq<char>, VariantView)>),
    Object(u64),
}

impl Variant {
    /// What the value holds.
    pub open spec fn view(&self) -> VariantView
        decreases self,
    {
        match self {
            Variant::Nil => VariantView::Nil,
            Variant::Bool(b) => VariantView::Bool(*b),
            Variant::Int(n) => VariantView::Int(*n),
            Variant::Real(x) => VariantView::Real(*x),
            Variant::Text(s) => VariantView::Text(s@),
            Variant::Vector2(x, y) => VariantView::Vector2(*x, *y),
            Variant::Array(element, items) => VariantView::Array(
                *element,
                Seq::new(
                    items@.len(),
                    |i: int|
                        if 0 <= i < items@.len() {
                            items@[i].view()
                        } else {
                            VariantView::Nil
                        },
                ),
            ),
            Variant::Dictionary(d) => VariantView::Dictionary(d.view()),
            Variant::Object(id) => VariantView::Object(*id),
        }
    }
}


/// The view of the entries of a dictionary or the items of an array.
pub type Entries = Seq<(Seq<char>, VariantView)>;

/// Does `entries` hold the key `key`?
pub open spec fn has_key(entries: Entries, key: Seq<char>) -> bool {
    exists|i: int| 0 <= i < entries.len() && (#[trigger] entries[i]).0 == key
}

/// The value that `entries` holds under `key`, where it holds the key.
pub open spec fn value_at(entries: Entries, key: Seq<char>) -> VariantView {
    entries[choose|i: int| 0 <= i < entries.len() && (#[trigger] entries[i]).0 == key].1
}

/// No key occurs twice.
pub open spec fn distinct_keys(entries: Entries) -> bool {
    forall|i: int, j: int|
        0 <= i < j < entries.len() ==> (#[trigger] entries[i]).0 != (#[trigger] entries[j]).0
}

/// Where no key occurs twice, the value under a key is the value of the
/// one entry that has the key.
pub proof fn lemma_value_at(entries: Entries, i: int)
    requires
        distinct_keys(entries),
        0 <= i < entries.len(),
    ensures
        has_key(entries, entries[i].0),
        value_at(entries, entries[i].0) == entries[i].1,
{
    let key = entries[i].0;
    let j = choose|j: int| 0 <= j < entries.len() && (#[trigger] entries[j]).0 == key;
    assert(i == j) by {
        if i < j {
            assert(entries[i].0 != entries[j].0);
        } else if j < i {
            assert(entries[j].0 != entries[i].0);
        }
    }
}

/// A conversion that failed: the value that did not fit, and a cause in
/// words where the shape of the value was wrong rather than the value.
#[derive(Debug)]
pub struct ConvertError {
    /// The value that could not be converted.
    pub value: Option<Variant>,
    /// What was wrong with its shape, if that was the matter.
    pub cause: Option<String>,
}

/// What a `ConvertError` holds, as a mathematical value.
pub struct ConvertErrorView {
    pub value: Option<VariantView>,
    pub cause: Option<Seq<char>>,
}

impl ConvertError {
    /// What the error holds.
    pub open spec fn view(&self) -> ConvertErrorView {
        ConvertErrorView {
            value: match self.value {
                Some(v) => Some(v@),
                None => None,
            },
            cause: match self.cause {
                Some(c) => Some(c@),
                None => None,
            },
        }
    }

    /// The error for a value that does not fit the type asked for.
    pub fn mismatch(value: Variant) -> (e: ConvertError)
        ensures
            e.value == Some(value),
            e.cause is None,
    {
        ConvertError { value: Some(value), cause: None }
    }

    /// The error for a value whose shape is wrong, with the cause in words.
    pub fn with_cause_value(cause: &str, value: Variant) -> (e: ConvertError)
        ensures
            e.value == Some(value),
            e.cause is Some,
            e.cause->0@ == cause@,
    {
        ConvertError { value: Some(value), cause: Some(cause.to_owned()) }
    }
}

/// The integer that the value converts to, if it is one.
pub open spec fn i64_of(v: VariantView) -> Option<i64> {
    match v {
        VariantView::Int(n) => Some(n),
        _ => None,
    }
}

/// The 32-bit integer that the value converts to: it must be an integer,
/// and it must fit. One that does not fit is not cut down.
pub open spec fn i32_of(v: VariantView) -> Option<i32> {
    match v {
        VariantView::Int(n) => if i32::MIN <= n <= i32::MAX {
            Some(n as i32)
        } else {
            None
        },
        _ => None,
    }
}

/// The floating-point number that the value converts to, if it is one.
pub open spec fn real_of(v: VariantView) -> Option<Real> {
    match v {
        VariantView::Real(x) => Some(x),
        _ => None,
    }
}

/// The truth value that the value converts to, if it is one.
pub open spec fn bool_of(v: VariantView) -> Option<bool> {
    match v {
        VariantView::Bool(b) => Some(b),
        _ => None,
    }
}

/// The string that the value converts to, if it is one.
pub open spec fn text_of(v: VariantView) -> Option<Seq<char>> {
    match v {
        VariantView::Text(s) => Some(s),
        _ => None,
    }
}

/// The error that a failed conversion of `value`, whose type did not fit,
/// reports.
pub open spec fn mismatch_of(value: VariantView) -> ConvertErrorView {
    ConvertErrorView { value: Some(value), cause: None }
}

impl Dictionary {
    /// The entries in order of insertion.
    pub closed spec fn view(&self) -> Entries
        decreases self,
    {
        Seq::new(
            self.entries@.len(),
            |i: int|
                if 0 <= i < self.entries@.len() {
                    (self.entries@[i].0@, self.entries@[i].1@)
                } else {
                    (Seq::empty(), VariantView::Nil)
                },
        )
    }

    /// The dictionary's invariant: no key occurs twice.
    pub open spec fn wf(&self) -> bool {
        distinct_keys(self@)
    }

    /// An empty dictionary.
    pub fn new() -> (d: Dictionary)
        ensures
            d.wf(),
            d@.len() == 0,
    {
        Dictionary { entries: Vec::new() }
    }

    /// Number of entries.
    pub fn len(&self) -> (n: usize)
        ensures
            n == self@.len(),
    {
        self.entries.len()
    }

    /// Position of the entry with the key `key`.
    fn position(&self, key: &String) -> (found: Option<usize>)
        ensures
            match found {
                Some(i) => i < self@.len() && self@[i as int].0 == key@,
                None => !has_key(self@, key@),
            },
    {
        let mut i: usize = 0;
        while i < self.entries.len()
            invariant
                i <= self.entries.len(),
                forall|j: int| 0 <= j < i ==> (#[trigger] self@[j]).0 != key@,
            decreases self.entries.len() - i,
        {
            if self.entries[i].0 == *key {
                return Some(i);
            }
            i += 1;
        }
        None
    }

    /// Whether the dictionary holds the key.
    pub fn contains_key(&self, key: &str) -> (yes: bool)
        ensures
            yes == has_key(self@, key@),
    {
        let owned = key.to_owned();
        self.position(&owned).is_some()
    }

    /// The value under the key, if the dictionary holds the key.
    pub fn get(&self, key: &str) -> (value: Option<&Variant>)
        requires
            self.wf(),
        ensures
            match value {
                Some(v) => has_key(self@, key@) && v@ == value_at(self@, key@),
                None => !has_key(self@, key@),
            },
    {
        let owned = key.to_owned();
        match self.position(&owned) {
            Some(i) => {
                proof {
                    lemma_value_at(self@, i as int);
                }
                Some(&self.entries[i].1)
            },
            None => None,
        }
    }

    /// Puts `value` under `key`. A new key goes to the end; a key that the
    /// dictionary holds keeps its place, and the value it had is returned.
    pub fn insert(&mut self, key: &str, value: Variant) -> (previous: Option<Variant>)
        requires
            old(self).wf(),
        ensures
            final(self).wf(),
            has_key(final(self)@, key@),
            value_at(final(self)@, key@) == value@,
            match previous {
                Some(p) => {
                    &&& has_key(old(self)@, key@)
                    &&& p@ == value_at(old(self)@, key@)
                    &&& exists|i: int|
                        0 <= i < old(self)@.len() && (#[trigger] old(self)@[i]).0 == key@
                            && final(self)@ == old(self)@.update(i, (key@, value@))
                },
                None => {
                    &&& !has_key(old(self)@, key@)
                    &&& final(self)@ == old(self)@.push((key@, value@))
                },
            },
    {
        let owned = key.to_owned();
        match self.position(&owned) {
            Some(i) => {
                proof {
                    lemma_value_at(self@, i as int);
                }
                let (_, previous) = self.entries.remove(i);
                self.entries.insert(i, (owned, value));
                proof {
                    assert(self@ =~= old(self)@.update(i as int, (key@, value@)));
                    assert(old(self)@[i as int].0 == key@);
                    assert(distinct_keys(self@)) by {
                        assert forall|a: int, b: int| 0 <= a < b < self@.len() implies (
                        #[trigger] self@[a]).0 != (#[trigger] self@[b]).0 by {
                            assert(self@[a].0 == old(self)@[a].0);
                            assert(self@[b].0 == old(self)@[b].0);
                        }
                    }
                    lemma_value_at(self@, i as int);
                }
                Some(previous)
            },
            None => {
                self.entries.push((owned, value));
                proof {
                    assert(self@ =~= old(self)@.push((key@, value@)));
                    assert(distinct_keys(self@)) by {
                        assert forall|a: int, b: int| 0 <= a < b < self@.len() implies (
                        #[trigger] self@[a]).0 != (#[trigger] self@[b]).0 by {
                            if b < old(self)@.len() {
                                assert(self@[a] == old(self)@[a]);
                                assert(self@[b] == old(self)@[b]);
                            } else {
                                assert(self@[a] == old(self)@[a]);
                            }
                        }
                    }
                    lemma_value_at(self@, self@.len() - 1);
                }
                None
            },
        }
    }

    /// Takes the dictionary apart into its entries, in order.
    pub fn into_entries(self) -> (entries: Vec<(String, Variant)>)
        ensures
            entries@.len() == self@.len(),
            forall|i: int|
                0 <= i < entries@.len() ==> (#[trigger] entries@[i]).0@ == self@[i].0
                    && entries@[i].1@ == self@[i].1,
    {
        self.entries
    }
}

impl Variant {
    /// The value as an integer, if it is one.
    pub fn try_to_i64(self) -> (result: Result<i64, ConvertError>)
        ensures
            match result {
                Ok(n) => i64_of(self@) == Some(n),
                Err(e) => i64_of(self@) is None && e.value == Some(self) && e.cause is None,
            },
    {
        match self {
            Variant::Int(n) => Ok(n),
            other => Err(ConvertError::mismatch(other)),
        }
    }

    /// The value as a 32-bit integer, if it is an integer that fits.
    pub fn try_to_i32(self) -> (result: Result<i32, ConvertError>)
        ensures
            match result {
                Ok(n) => i32_of(self@) == Some(n),
                Err(e) => i32_of(self@) is None && e.value == Some(self) && e.cause is None,
            },
    {
        match self {
            Variant::Int(n) => {
                if n >= -2147483648 && n <= 2147483647 {
                    Ok(n as i32)
                } else {
                    Err(ConvertError::mismatch(Variant::Int(n)))
                }
            },
            other => Err(ConvertError::mismatch(other)),
        }
    }

    /// The value as a floating-point number, if it is one.
    pub fn try_to_real(self) -> (result: Result<Real, ConvertError>)
        ensures
            match result {
                Ok(x) => real_of(self@) == Some(x),
                Err(e) => real_of(self@) is None && e.value == Some(self) && e.cause is None,
            },
    {
        match self {
            Variant::Real(x) => Ok(x),
            other => Err(ConvertError::mismatch(other)),
        }
    }

    /// The value as a truth value, if it is one.
    pub fn try_to_bool(self) -> (result: Result<bool, ConvertError>)
        ensures
            match result {
                Ok(b) => bool_of(self@) == Some(b),
                Err(e) => bool_of(self@) is None && e.value == Some(self) && e.cause is None,
            },
    {
        match self {
            Variant::Bool(b) => Ok(b),
            other => Err(ConvertError::mismatch(other)),
        }
    }

    /// The value as a string, if it is one.
    pub fn try_to_text(self) -> (result: Result<String, ConvertError>)
        ensures
            match result {
                Ok(s) => text_of(self@) == Some(s@),
                Err(e) => text_of(self@) is None && e.value == Some(self) && e.cause is None,
            },
    {
        match self {
            Variant::Text(s) => Ok(s),
            other => Err(ConvertError::mismatch(other)),
        }
    }

    /// The value as a dictionary, if it is one.
    pub fn try_to_dictionary(self) -> (result: Result<Dictionary, ConvertError>)
        ensures
            match result {
                Ok(d) => self@ == VariantView::Dictionary(d@),
                Err(e) => !(self@ is Dictionary) && e.value == Some(self) && e.cause is None,
            },
    {
        match self {
            Variant::Dictionary(d) => Ok(d),
            other => Err(ConvertError::mismatch(other)),
        }
    }

    /// The value as an array whose elements the engine holds to the type
    /// `element`: it must be an array of exactly that element type. An
    /// untyped array is no typed array, and an array of handles of one
    /// class is no array of handles of another.
    pub fn try_to_array(self, element: ElementType) -> (result: Result<Vec<Variant>, ConvertError>)
        ensures
            match result {
                Ok(items) => self == Variant::Array(element, items),
                Err(e) => {
                    &&& !(self is Array && self->Array_0 == element)
                    &&& e.value == Some(self)
                    &&& e.cause is None
                },
            },
    {
        match self {
            Variant::Array(held, items) => {
                if held == element {
                    Ok(items)
                } else {
                    Err(ConvertError::mismatch(Variant::Array(held, items)))
                }
            },
            other => Err(ConvertError::mismatch(other)),
        }
    }

    /// The instance id that the value refers to, if it refers to an object.
    pub fn object_id(&self) -> (id: Option<u64>)
        ensures
            match id {
                Some(i) => self@ == VariantView::Object(i),
                None => !(self@ is Object),
            },
    {
        match self {
            Variant::Object(id) => Some(*id),
            _ => None,
        }
    }

    /// Whether the value is nothing.
    pub fn is_nil(&self) -> (nil: bool)
        ensures
            nil == (self@ is Nil),
    {
        match self {
            Variant::Nil => true,
            _ => false,
        }
    }

    /// The integer as a value.
    pub fn from_i64(n: i64) -> (v: Variant)
        ensures
            v@ == VariantView::Int(n),
    {
        Variant::Int(n)
    }

    /// The 32-bit integer as a value.
    pub fn from_i32(n: i32) -> (v: Variant)
        ensures
            v@ == VariantView::Int(n as i64),
    {
        Variant::Int(n as i64)
    }

    /// The floating-point number as a value.
    pub fn from_real(x: Real) -> (v: Variant)
        ensures
            v@ == VariantView::Real(x),
    {
        Variant::Real(x)
    }

    /// The truth value as a value.
    pub fn from_bool(b: bool) -> (v: Variant)
        ensures
            v@ == VariantView::Bool(b),
    {
        Variant::Bool(b)
    }

    /// The string as a value.
    pub fn from_text(s: String) -> (v: Variant)
        ensures
            v@ == VariantView::Text(s@),
    {
        Variant::Text(s)
    }

    /// The dictionary as a value.
    pub fn from_dictionary(d: Dictionary) -> (v: Variant)
        ensures
            v@ == VariantView::Dictionary(d@),
    {
        Variant::Dictionary(d)
    }

    /// A copy of the value, equal to it in all that it holds.
    pub fn duplicate(&self) -> (copy: Variant)
        ensures
            copy@ == self@,
        decreases self,
    {
        match self {
            Variant::Nil => Variant::Nil,
            Variant::Bool(b) => Variant::Bool(*b),
            Variant::Int(n) => Variant::Int(*n),
            Variant::Real(x) => Variant::Real(*x),
            Variant::Text(s) => Variant::Text(s.clone()),
            Variant::Vector2(x, y) => Variant::Vector2(*x, *y),
            Variant::Array(element, items) => {
                let mut out: Vec<Variant> = Vec::new();
                let mut i: usize = 0;
                while i < items.len()
                    invariant
                        *self is Array,
                        self->Array_1 == *items,
                        i <= items.len(),
                        out@.len() == i,
                        forall|j: int| 0 <= j < i ==> (#[trigger] out@[j])@ == items@[j]@,
                    decreases items.len() - i,
                {
                    proof {
                        vstd::std_specs::vec::axiom_vec_index_decreases(*items, i as int);
                    }
                    out.push(items[i].duplicate());
                    i += 1;
                }
                let copy = Variant::Array(*element, out);
                assert(copy@->Array_1 =~= self@->Array_1);
                copy
            },
            Variant::Dictionary(d) => {
                let mut out: Vec<(String, Variant)> = Vec::new();
                let mut i: usize = 0;
                while i < d.entries.len()
                    invariant
                        *self is Dictionary,
                        self->Dictionary_0 == *d,
                        i <= d.entries.len(),
                        out@.len() == i,
                        forall|j: int|
                            0 <= j < i ==> (#[trigger] out@[j]).0@ == d.entries@[j].0@
                                && out@[j].1@ == d.entries@[j].1@,
                    decreases d.entries.len() - i,
                {
                    proof {
                        vstd::std_specs::vec::axiom_vec_index_decreases(d.entries, i as int);
                    }
                    out.push((d.entries[i].0.clone(), d.entries[i].1.duplicate()));
                    i += 1;
                }
                let copied = Dictionary { entries: out };
                assert(copied@ =~= d@);
                Variant::Dictionary(copied)
            },
            Variant::Object(id) => Variant::Object(*id),
        }
    }
}

/// A native value that is made a dynamic value and converted back at the
/// same type comes back as it was. An integer is converted to 32 bits only
/// if it fits them: it is refused otherwise, never cut down.
pub proof fn lemma_native_round_trip(n: i64, m: i32, x: Real, b: bool, s: Seq<char>)
    ensures
        i64_of(VariantView::Int(n)) == Some(n),
        i32_of(VariantView::Int(m as i64)) == Some(m),
        real_of(VariantView::Real(x)) == Some(x),
        bool_of(VariantView::Bool(b)) == Some(b),
        text_of(VariantView::Text(s)) == Some(s),
        i32_of(VariantView::Int(n)) is Some <==> i32::MIN <= n <= i32::MAX,
        i32_of(VariantView::Int(n)) is Some ==> i32_of(VariantView::Int(n))->0 == n,
{
}

} // verus!
