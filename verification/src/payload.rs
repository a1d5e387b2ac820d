use crate::display::{decimal, push_decimal};
use crate::handle::Gd;
use crate::object::{fresh_record, Engine};
use vstd::prelude::*;

verus! {

/// A whole number written in decimal, with a minus sign if it is negative.
pub open spec fn signed_decimal(n: int) -> Seq<char> {
    if n < 0 {
        "-"@ + decimal((-n) as nat)
    } else {
        decimal(n as nat)
    }
}

/// The payload of a reference-counted class: one number, and a text of its
/// own by which its objects are shown.
#[derive(Clone, Copy, Debug, PartialEq, Eq, Structural)]
pub struct RefcPayload {
    pub value: i16,
}

impl RefcPayload {
    /// The payload that an object gets when it is made without one.
    pub fn init() -> (payload: Self)
        ensures
            payload.value == 111,
    {
        RefcPayload { value: 111 }
    }

    /// The text by which an object with this payload is shown.
    pub fn to_string(&self) -> (text: String)
        ensures
            text@ == "value="@ + signed_decimal(self.value as int),
    {
        let mut out = "value=".to_owned();
        let ghost start = out@;
        let value = self.value as i64;
        if value < 0 {
            vstd::string::StringExecFns::append(&mut out, "-");
            push_decimal(&mut out, (-value) as u64);
        } else {
            push_decimal(&mut out, value as u64);
        }
        assert(out@ =~= start + signed_decimal(self.value as int));
        out
    }
}

/// The payload of a manually managed class whose objects are made by a
/// function of the class, from the value that they are to hold.
#[derive(Clone, Copy, Debug, PartialEq, Eq, Structural)]
pub struct CustomConstructor {
    pub val: i64,
}

/// The payload that holds `val`.
pub open spec fn holding(val: i64) -> CustomConstructor {
    CustomConstructor { val }
}

impl CustomConstructor {
    /// Makes an object of the registered class `class` that holds `val`.
    /// Fails only when the engine has no instance id left to give.
    pub fn construct_object(engine: &mut Engine<CustomConstructor>, class: usize, val: i64) -> (handle:
        Option<Gd>)
        requires
            old(engine).wf(),
            class < old(engine).classes().len(),
        ensures
            final(engine).wf(),
            final(engine).classes() == old(engine).classes(),
            match handle {
                Some(h) => {
                    &&& old(engine).next_id() < u64::MAX
                    &&& h.id() == old(engine).next_id()
                    &&& h.class() == class
                    &&& final(engine).next_id() == h.id() + 1
                    &&& final(engine)@ == old(engine)@.insert(
                        h.id(),
                        fresh_record(old(engine).classes(), class, holding(val)),
                    )
                },
                None => {
                    &&& old(engine).next_id() == u64::MAX
                    &&& old(engine).becomes(final(engine), old(engine)@)
                },
            },
    {
        engine.from_object(class, CustomConstructor { val })
    }
}

} // verus!
