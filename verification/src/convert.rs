use crate::handle::Gd;
use crate::object::{Engine, UsageError};
use crate::variant::{
    bool_of, distinct_keys, has_key, i32_of, i64_of, lemma_value_at, mismatch_of, real_of,
    value_at, ConvertError, ConvertErrorView, Dictionary, Entries, Real, Variant, VariantView,
};
use vstd::prelude::*;

verus! {

/// A native type whose values can be made dynamic values. This never
/// fails.
pub trait ToVariant {
    /// The dynamic value that `self` is made into.
    spec fn spec_to_variant(&self) -> VariantView;

    /// Makes `self` a dynamic value.
    fn to_variant(&self) -> (v: Variant)
        ensures
            v@ == self.spec_to_variant(),
    ;
}

/// A native type whose values can be recovered from dynamic values, where
/// the dynamic value fits.
pub trait FromVariant: Sized {
    /// Whether the dynamic value is well formed as far as this conversion
    /// looks into it.
    spec fn readable(v: VariantView) -> bool;

    /// What converting the dynamic value gives: the native value, or the
    /// error that says why there is none.
    spec fn spec_try_from_variant(v: VariantView) -> Result<Self, ConvertErrorView>;

    /// Converts a dynamic value.
    fn try_from_variant(value: Variant) -> (result: Result<Self, ConvertError>)
        requires
            Self::readable(value@),
        ensures
            match result {
                Ok(x) => Self::spec_try_from_variant(value@) == Ok::<Self, ConvertErrorView>(x),
                Err(e) => Self::spec_try_from_variant(value@) == Err::<Self, ConvertErrorView>(
                    e@,
                ),
            },
    ;
}

/// A native type that converts both ways, and for which the way there and
/// back again changes nothing.
pub trait RoundTrip: ToVariant + FromVariant {
    /// A value that is made a dynamic value and converted back comes back
    /// as it was, if it comes back at all.
    proof fn lemma_round_trip(&self)
        ensures
            Self::readable(self.spec_to_variant()),
            Self::spec_try_from_variant(self.spec_to_variant()) is Ok
                ==> Self::spec_try_from_variant(self.spec_to_variant()) == Ok::<
                Self,
                ConvertErrorView,
            >(*self),
    ;
}

/// What converting a dynamic value to a native value through `of` gives,
/// where a value that does not fit is reported as it is.
pub open spec fn converted<T>(of: Option<T>, v: VariantView) -> Result<T, ConvertErrorView> {
    match of {
        Some(x) => Ok(x),
        None => Err(mismatch_of(v)),
    }
}

impl ToVariant for i64 {
    open spec fn spec_to_variant(&self) -> VariantView {
        VariantView::Int(*self)
    }

    fn to_variant(&self) -> (v: Variant) {
        Variant::from_i64(*self)
    }
}

impl FromVariant for i64 {
    open spec fn readable(v: VariantView) -> bool {
        true
    }

    open spec fn spec_try_from_variant(v: VariantView) -> Result<Self, ConvertErrorView> {
        converted(i64_of(v), v)
    }

    fn try_from_variant(value: Variant) -> (result: Result<Self, ConvertError>) {
        value.try_to_i64()
    }
}

impl RoundTrip for i64 {
    proof fn lemma_round_trip(&self) {
    }
}

impl ToVariant for i32 {
    open spec fn spec_to_variant(&self) -> VariantView {
        VariantView::Int(*self as i64)
    }

    fn to_variant(&self) -> (v: Variant) {
        Variant::from_i32(*self)
    }
}

impl FromVariant for i32 {
    open spec fn readable(v: VariantView) -> bool {
        true
    }

    open spec fn spec_try_from_variant(v: VariantView) -> Result<Self, ConvertErrorView> {
        converted(i32_of(v), v)
    }

    fn try_from_variant(value: Variant) -> (result: Result<Self, ConvertError>) {
        value.try_to_i32()
    }
}

impl RoundTrip for i32 {
    proof fn lemma_round_trip(&self) {
    }
}

impl ToVariant for bool {
    open spec fn spec_to_variant(&self) -> VariantView {
        VariantView::Bool(*self)
    }

    fn to_variant(&self) -> (v: Variant) {
        Variant::from_bool(*self)
    }
}

impl FromVariant for bool {
    open spec fn readable(v: VariantView) -> bool {
        true
    }

    open spec fn spec_try_from_variant(v: VariantView) -> Result<Self, ConvertErrorView> {
        converted(bool_of(v), v)
    }

    fn try_from_variant(value: Variant) -> (result: Result<Self, ConvertError>) {
        value.try_to_bool()
    }
}

impl RoundTrip for bool {
    proof fn lemma_round_trip(&self) {
    }
}

impl ToVariant for Real {
    open spec fn spec_to_variant(&self) -> VariantView {
        VariantView::Real(*self)
    }

    fn to_variant(&self) -> (v: Variant) {
        Variant::from_real(*self)
    }
}

impl FromVariant for Real {
    open spec fn readable(v: VariantView) -> bool {
        true
    }

    open spec fn spec_try_from_variant(v: VariantView) -> Result<Self, ConvertErrorView> {
        converted(real_of(v), v)
    }

    fn try_from_variant(value: Variant) -> (result: Result<Self, ConvertError>) {
        value.try_to_real()
    }
}

impl RoundTrip for Real {
    proof fn lemma_round_trip(&self) {
    }
}

impl Variant {
    /// Converts the value to the native type `T`.
    pub fn try_to<T: FromVariant>(self) -> (result: Result<T, ConvertError>)
        requires
            T::readable(self@),
        ensures
            match result {
                Ok(x) => T::spec_try_from_variant(self@) == Ok::<T, ConvertErrorView>(x),
                Err(e) => T::spec_try_from_variant(self@) == Err::<T, ConvertErrorView>(e@),
            },
    {
        T::try_from_variant(self)
    }

    /// Converts the value to the native type `T`, where the caller knows
    /// that it converts.
    pub fn to<T: FromVariant>(self) -> (x: T)
        requires
            T::readable(self@),
            T::spec_try_from_variant(self@) is Ok,
        ensures
            T::spec_try_from_variant(self@) == Ok::<T, ConvertErrorView>(x),
    {
        T::try_from_variant(self).unwrap()
    }
}

/// A record of two fields that converts to and from a dictionary with
/// exactly the keys `a` and `b`.
#[derive(Clone, Copy, Debug, PartialEq, Eq, Structural)]
pub struct Foo {
    /// Kept under the key `a`, as an integer.
    pub a: i32,
    /// Kept under the key `b`, as a floating-point number.
    pub b: Real,
}

/// The error for a dictionary of the wrong shape: it carries the whole
/// dictionary and says in words what is wrong.
pub open spec fn shape_error(d: Entries, cause: Seq<char>) -> ConvertErrorView {
    ConvertErrorView { value: Some(VariantView::Dictionary(d)), cause: Some(cause) }
}

/// The keys `a` and `b` differ.
pub proof fn lemma_keys_differ()
    ensures
        "a"@ != "b"@,
{
    reveal_strlit("a");
    reveal_strlit("b");
    assert("a"@[0] == 'a');
    assert("b"@[0] == 'b');
}

impl Foo {
    /// Cause reported when the key `a` is missing.
    pub const MISSING_KEY_A: &'static str = "missing `a` key";

    /// Cause reported when the key `b` is missing.
    pub const MISSING_KEY_B: &'static str = "missing `b` key";

    /// Cause reported when there are keys besides `a` and `b`.
    pub const TOO_MANY_KEYS: &'static str = "too many keys provided";

    /// The dictionary that the record converts to.
    pub open spec fn spec_to_godot(&self) -> Entries {
        seq![("a"@, VariantView::Int(self.a as i64)), ("b"@, VariantView::Real(self.b))]
    }

    /// What converting a dictionary to a record gives.
    ///
    /// Both keys must be there and no other; a missing key or a key too
    /// many is reported with the dictionary and a cause. Then each value
    /// must fit its field; one that does not is reported as it is, without
    /// a cause, that of `a` first.
    pub open spec fn spec_try_from_godot(d: Entries) -> Result<Foo, ConvertErrorView> {
        if !has_key(d, "a"@) {
            Err(shape_error(d, Foo::MISSING_KEY_A@))
        } else if !has_key(d, "b"@) {
            Err(shape_error(d, Foo::MISSING_KEY_B@))
        } else if d.len() > 2 {
            Err(shape_error(d, Foo::TOO_MANY_KEYS@))
        } else {
            let a = value_at(d, "a"@);
            let b = value_at(d, "b"@);
            match (i32_of(a), real_of(b)) {
                (Some(a), Some(b)) => Ok(Foo { a, b }),
                (None, _) => Err(mismatch_of(a)),
                (_, None) => Err(mismatch_of(b)),
            }
        }
    }

    /// Converts the record to a dictionary with the keys `a` and `b`.
    pub fn to_godot(&self) -> (d: Dictionary)
        ensures
            d.wf(),
            d@ == self.spec_to_godot(),
    {
        let mut d = Dictionary::new();
        proof {
            lemma_keys_differ();
        }
        d.insert("a", Variant::Int(self.a as i64));
        assert(d@ =~= seq![("a"@, VariantView::Int(self.a as i64))]);
        let ghost first = d@;
        d.insert("b", Variant::Real(self.b));
        assert(!has_key(first, "b"@));
        assert(d@ =~= self.spec_to_godot());
        d
    }

    /// Converts a dictionary to a record.
    pub fn try_from_godot(dict: Dictionary) -> (result: Result<Foo, ConvertError>)
        requires
            dict.wf(),
        ensures
            match result {
                Ok(foo) => Foo::spec_try_from_godot(dict@) == Ok::<Foo, ConvertErrorView>(foo),
                Err(e) => Foo::spec_try_from_godot(dict@) == Err::<Foo, ConvertErrorView>(e@),
            },
    {
        if !dict.contains_key("a") {
            return Err(ConvertError::with_cause_value(Foo::MISSING_KEY_A, Variant::from_dictionary(dict)));
        }
        if !dict.contains_key("b") {
            return Err(ConvertError::with_cause_value(Foo::MISSING_KEY_B, Variant::from_dictionary(dict)));
        }
        if dict.len() > 2 {
            return Err(ConvertError::with_cause_value(Foo::TOO_MANY_KEYS, Variant::from_dictionary(dict)));
        }
        let ghost d = dict@;
        proof {
            lemma_keys_differ();
            lemma_two_keys(d);
        }
        let mut entries = dict.into_entries();
        let second = entries.pop();
        let first = entries.pop();
        match (first, second) {
            (Some((k0, v0)), Some((_, v1))) => {
                proof {
                    lemma_value_at(d, 0);
                    lemma_value_at(d, 1);
                }
                let (a, b) = if k0 == "a".to_owned() {
                    (v0, v1)
                } else {
                    (v1, v0)
                };
                let a = match a.try_to_i32() {
                    Ok(n) => n,
                    Err(e) => {
                        return Err(e);
                    },
                };
                let b = match b.try_to_real() {
                    Ok(x) => x,
                    Err(e) => {
                        return Err(e);
                    },
                };
                Ok(Foo { a, b })
            },
            _ => {
                assert(false);
                Err(ConvertError { value: None, cause: None })
            },
        }
    }

    /// Converts a dictionary that is known to convert.
    pub fn from_godot(dict: Dictionary) -> (foo: Foo)
        requires
            dict.wf(),
            Foo::spec_try_from_godot(dict@) is Ok,
        ensures
            Foo::spec_try_from_godot(dict@) == Ok::<Foo, ConvertErrorView>(foo),
    {
        Foo::try_from_godot(dict).unwrap()
    }

}

impl ToVariant for Foo {
    open spec fn spec_to_variant(&self) -> VariantView {
        VariantView::Dictionary(self.spec_to_godot())
    }

    /// Converts the record to a dynamic value that holds the dictionary.
    fn to_variant(&self) -> (v: Variant) {
        Variant::from_dictionary(self.to_godot())
    }
}

impl FromVariant for Foo {
    open spec fn readable(v: VariantView) -> bool {
        v is Dictionary ==> distinct_keys(v->Dictionary_0)
    }

    open spec fn spec_try_from_variant(v: VariantView) -> Result<Self, ConvertErrorView> {
        match v {
            VariantView::Dictionary(d) => Foo::spec_try_from_godot(d),
            _ => Err(mismatch_of(v)),
        }
    }

    /// Converts a dynamic value to a record: it must hold a dictionary that
    /// converts.
    fn try_from_variant(value: Variant) -> (result: Result<Self, ConvertError>) {
        match value.try_to_dictionary() {
            Ok(d) => Foo::try_from_godot(d),
            Err(e) => Err(e),
        }
    }
}

impl RoundTrip for Foo {
    proof fn lemma_round_trip(&self) {
        lemma_record_round_trip(*self);
    }
}

/// A dictionary of at most two entries that holds both keys holds exactly
/// the two, one in each place.
pub proof fn lemma_two_keys(d: Entries)
    requires
        distinct_keys(d),
        has_key(d, "a"@),
        has_key(d, "b"@),
        d.len() <= 2,
        "a"@ != "b"@,
    ensures
        d.len() == 2,
        (d[0].0 == "a"@ && d[1].0 == "b"@) || (d[0].0 == "b"@ && d[1].0 == "a"@),
{
    let i = choose|i: int| 0 <= i < d.len() && (#[trigger] d[i]).0 == "a"@;
    let j = choose|j: int| 0 <= j < d.len() && (#[trigger] d[j]).0 == "b"@;
    assert(i != j);
}

/// A record that is converted to a dictionary and back comes out as it
/// went in.
pub proof fn lemma_record_round_trip(foo: Foo)
    ensures
        distinct_keys(foo.spec_to_godot()),
        Foo::spec_try_from_godot(foo.spec_to_godot()) == Ok::<Foo, ConvertErrorView>(foo),
{
    lemma_keys_differ();
    let d = foo.spec_to_godot();
    assert(d[0].0 == "a"@ && d[1].0 == "b"@);
    lemma_value_at(d, 0);
    lemma_value_at(d, 1);
}

/// A dictionary that converts to a record holds what the record converts
/// back to: the same keys with the same values, and nothing more.
pub proof fn lemma_dictionary_round_trip(d: Entries, foo: Foo)
    requires
        distinct_keys(d),
        Foo::spec_try_from_godot(d) == Ok::<Foo, ConvertErrorView>(foo),
    ensures
        d.len() == foo.spec_to_godot().len(),
        forall|key: Seq<char>| has_key(d, key) == has_key(foo.spec_to_godot(), key),
        forall|key: Seq<char>|
            has_key(d, key) ==> value_at(d, key) == value_at(
                foo.spec_to_godot(),
                key,
            ),
{
    lemma_keys_differ();
    lemma_two_keys(d);
    let back = foo.spec_to_godot();
    assert(back[0].0 == "a"@ && back[1].0 == "b"@);
    lemma_value_at(back, 0);
    lemma_value_at(back, 1);
    lemma_value_at(d, 0);
    lemma_value_at(d, 1);
    assert forall|key: Seq<char>| has_key(d, key) == has_key(back, key) by {
        if has_key(d, key) {
            let i = choose|i: int| 0 <= i < d.len() && (#[trigger] d[i]).0 == key;
            assert(key == "a"@ || key == "b"@);
        }
        if has_key(back, key) {
            let i = choose|i: int| 0 <= i < back.len() && (#[trigger] back[i]).0 == key;
            assert(key == "a"@ || key == "b"@);
        }
    }
    assert forall|key: Seq<char>| has_key(d, key) implies value_at(d, key)
        == value_at(back, key) by {
        let i = choose|i: int| 0 <= i < d.len() && (#[trigger] d[i]).0 == key;
        assert(key == "a"@ || key == "b"@);
    }
}

/// What a record gave on its way through a dictionary and back.
#[derive(Debug)]
pub struct Roundtrip {
    /// The dictionary that the record converted to.
    pub as_dict: Dictionary,
    /// What the dictionary converted back to when it went through a
    /// dynamic value.
    pub from_variant: Foo,
    /// What the dictionary converted back to directly.
    pub from_godot: Foo,
}

/// Converts a record to a dictionary and converts the dictionary back,
/// once through a dynamic value and once directly. The dictionary holds
/// the two fields under `a` and `b`, and both ways back give the record
/// that went in.
pub fn custom_convert_roundtrip(foo: Foo) -> (trip: Roundtrip)
    ensures
        trip.as_dict.wf(),
        trip.as_dict@ == foo.spec_to_godot(),
        trip.from_variant == foo,
        trip.from_godot == foo,
{
    proof {
        lemma_record_round_trip(foo);
    }
    let as_dict = foo.to_godot();
    let from_variant = foo.to_variant().to::<Foo>();
    let from_godot = Foo::from_godot(foo.to_godot());
    Roundtrip { as_dict, from_variant, from_godot }
}

/// One of the two axes of a plane, which the engine numbers 0 and 1.
#[derive(Clone, Copy, Debug, PartialEq, Eq, Structural)]
pub enum Vector2Axis {
    X,
    Y,
}

/// The axis that the engine numbers `ord`, if there is one.
pub open spec fn axis_of(ord: i32) -> Option<Vector2Axis> {
    if ord == 0 {
        Some(Vector2Axis::X)
    } else if ord == 1 {
        Some(Vector2Axis::Y)
    } else {
        None
    }
}

impl Vector2Axis {
    /// The number that the engine has for the axis.
    pub open spec fn spec_to_godot(&self) -> i32 {
        match self {
            Vector2Axis::X => 0i32,
            Vector2Axis::Y => 1i32,
        }
    }

    /// The number that the engine has for the axis.
    pub fn to_godot(&self) -> (ord: i32)
        ensures
            ord == self.spec_to_godot(),
            axis_of(ord) == Some(*self),
    {
        match self {
            Vector2Axis::X => 0,
            Vector2Axis::Y => 1,
        }
    }

    /// The axis that the engine numbers `ord`. A number that stands for no
    /// axis is reported as it is, without a cause.
    pub fn try_from_godot(ord: i32) -> (result: Result<Vector2Axis, ConvertError>)
        ensures
            match result {
                Ok(axis) => axis_of(ord) == Some(axis),
                Err(e) => {
                    &&& axis_of(ord) is None
                    &&& e.value == Some(Variant::Int(ord as i64))
                    &&& e.cause is None
                },
            },
    {
        if ord == 0 {
            Ok(Vector2Axis::X)
        } else if ord == 1 {
            Ok(Vector2Axis::Y)
        } else {
            Err(ConvertError::mismatch(Variant::Int(ord as i64)))
        }
    }
}

/// The reference counts read while an object goes through a dynamic value
/// and back.
#[derive(Clone, Copy, Debug, PartialEq, Eq, Structural)]
pub struct RefcountTrace {
    /// At the start.
    pub start: u64,
    /// While a dynamic value refers to the object.
    pub with_variant: u64,
    /// While a handle made from the value exists as well.
    pub with_both: u64,
    /// When that handle was let go.
    pub after_handle: u64,
    /// When the value was let go too.
    pub after_variant: u64,
}

/// The counts that are read on an object that starts with `n` references.
pub open spec fn counts_from(n: u64) -> RefcountTrace {
    RefcountTrace {
        start: n,
        with_variant: (n + 1) as u64,
        with_both: (n + 2) as u64,
        after_handle: (n + 1) as u64,
        after_variant: n,
    }
}

impl<P> Engine<P> {
    /// What converting a dynamic value to a handle of class `class`
    /// answers: the instance id that the handle gets, if the value refers
    /// to a live object whose class is `class` or derives from it.
    pub open spec fn object_of(&self, value: VariantView, class: usize) -> Option<u64> {
        if value is Object && self.lookup_outcome(value->Object_0, class) is Ok {
            Some(value->Object_0)
        } else {
            None
        }
    }

    /// A dynamic value that refers to the handle's object. The value holds
    /// a reference of its own to a reference-counted object. The object
    /// must live: `retain_check` tells.
    pub fn to_variant(&mut self, handle: &Gd) -> (value: Variant)
        requires
            old(self).wf(),
            old(self).retain_outcome(handle.id()) is Ok,
        ensures
            final(self).wf(),
            value@ == VariantView::Object(handle.id()),
            old(self).becomes(final(self), old(self).retained(handle.id())),
    {
        let id = handle.raw_id();
        self.retain(id);
        Variant::Object(id)
    }

    /// A new handle of class `class` to the object that a dynamic value
    /// refers to. The value must refer to a live object whose class is
    /// `class` or derives from it; any other value is reported as it is,
    /// without a cause, and nothing changes.
    pub fn try_from_variant(&mut self, value: &Variant, class: usize) -> (handle: Result<
        Gd,
        ConvertError,
    >)
        requires
            old(self).wf(),
        ensures
            final(self).wf(),
            match handle {
                Ok(h) => {
                    &&& old(self).object_of(value@, class) == Some(h.id())
                    &&& h.class() == class
                    &&& old(self).becomes(final(self), old(self).retained(h.id()))
                },
                Err(e) => {
                    &&& old(self).object_of(value@, class) is None
                    &&& e@ == mismatch_of(value@)
                    &&& old(self).becomes(final(self), old(self)@)
                },
            },
    {
        match value.object_id() {
            Some(id) => match self.try_from_instance_id(id, class) {
                Ok(h) => Ok(h),
                Err(_) => Err(ConvertError::mismatch(value.duplicate())),
            },
            None => Err(ConvertError::mismatch(value.duplicate())),
        }
    }

    /// A new handle of class `class` to the object that a dynamic value
    /// refers to, where the caller knows that the value converts.
    pub fn from_variant(&mut self, value: &Variant, class: usize) -> (handle: Gd)
        requires
            old(self).wf(),
            old(self).object_of(value@, class) is Some,
        ensures
            final(self).wf(),
            old(self).object_of(value@, class) == Some(handle.id()),
            handle.class() == class,
            old(self).becomes(final(self), old(self).retained(handle.id())),
    {
        self.try_from_variant(value, class).unwrap()
    }

    /// What letting a dynamic value go answers: a value that refers to an
    /// object gives up a reference as a handle does.
    pub open spec fn drop_outcome(&self, value: VariantView) -> Result<(), UsageError> {
        match value {
            VariantView::Object(id) => self.release_outcome(id),
            _ => Ok(()),
        }
    }

    /// The table of objects after a dynamic value was let go.
    pub open spec fn dropped(&self, value: VariantView) -> Map<u64, crate::object::ObjectRecord<P>> {
        match value {
            VariantView::Object(id) => self.released(id),
            _ => self@,
        }
    }

    /// Tells whether a dynamic value can be let go, and why not.
    pub fn drop_check(&self, value: &Variant) -> (outcome: Result<(), UsageError>)
        ensures
            outcome == self.drop_outcome(value@),
    {
        match value.object_id() {
            Some(id) => self.release_check(id),
            None => Ok(()),
        }
    }

    /// Lets a dynamic value go. If it refers to an object, the reference
    /// that it held is given up, as for a handle: `drop_check` tells
    /// whether it can be.
    pub fn drop_variant(&mut self, value: Variant)
        requires
            old(self).wf(),
            old(self).drop_outcome(value@) is Ok,
        ensures
            final(self).wf(),
            old(self).becomes(final(self), old(self).dropped(value@)),
    {
        match value.object_id() {
            Some(id) => self.give_up_reference(id),
            None => {},
        }
    }

    /// Takes a reference-counted object through a dynamic value and back
    /// and reads the count at every step: one more with the value, two
    /// more with a handle made from the value, one more again when that
    /// handle is let go, and the count of the start when the value is. The
    /// engine is left as it was.
    pub fn check_convert_variant_refcount(&mut self, object: &Gd) -> (trace: RefcountTrace)
        requires
            old(self).wf(),
            old(self).is_instance_of(object.id(), object.class()),
            1 <= old(self)@[object.id()].refs <= u64::MAX - 2,
        ensures
            final(self).wf(),
            old(self).becomes(final(self), old(self)@),
            trace == counts_from(old(self)@[object.id()].refs),
    {
        let id = object.raw_id();
        let class = object.static_class();
        let start = self.ref_count(id);
        let variant = self.to_variant(object);
        let with_variant = self.ref_count(id);
        let another = self.from_variant(&variant, class);
        let with_both = self.ref_count(id);
        self.drop_handle(another);
        let after_handle = self.ref_count(id);
        self.drop_variant(variant);
        let after_variant = self.ref_count(id);
        assert(self@ =~= old(self)@);
        RefcountTrace { start, with_variant, with_both, after_handle, after_variant }
    }
}

/// A reference-counted object has one reference more once a dynamic value
/// refers to it, two more once a handle was made from that value, one
/// more again once that handle was let go, and as many as at the start
/// once the value was, when the engine is again as it was. With one
/// reference at the start the counts are 2, 3, 2 and 1.
pub proof fn lemma_reference_count_through_variant<P>(
    start: Engine<P>,
    with_variant: Engine<P>,
    with_both: Engine<P>,
    after_handle: Engine<P>,
    after_variant: Engine<P>,
    id: u64,
)
    requires
        start@.contains_key(id),
        1 <= start@[id].refs <= u64::MAX - 2,
        start.becomes(&with_variant, start.retained(id)),
        with_variant.becomes(&with_both, with_variant.retained(id)),
        with_both.becomes(&after_handle, with_both.released(id)),
        after_handle.becomes(&after_variant, after_handle.released(id)),
    ensures
        with_variant@[id].refs == start@[id].refs + 1,
        with_both@[id].refs == start@[id].refs + 2,
        after_handle@[id].refs == start@[id].refs + 1,
        after_variant@[id].refs == start@[id].refs,
        after_variant@ == start@,
{
    assert(after_variant@ =~= start@);
}

} // verus!
