use crate::handle::Gd;
use crate::object::Engine;
use vstd::prelude::*;
use vstd::string::StringExecFns;

verus! {

/// The character for one decimal digit.
pub open spec fn digit_text(d: nat) -> Seq<char> {
    if d == 0 {
        "0"@
    } else if d == 1 {
        "1"@
    } else if d == 2 {
        "2"@
    } else if d == 3 {
        "3"@
    } else if d == 4 {
        "4"@
    } else if d == 5 {
        "5"@
    } else if d == 6 {
        "6"@
    } else if d == 7 {
        "7"@
    } else if d == 8 {
        "8"@
    } else {
        "9"@
    }
}

/// A number written in decimal, without leading zeros.
pub open spec fn decimal(n: nat) -> Seq<char>
    decreases n,
{
    if n < 10 {
        digit_text(n)
    } else {
        decimal(n / 10) + digit_text(n % 10)
    }
}

/// How a handle to the object `id` of the class named `class` is shown
/// where the class has no text of its own.
pub open spec fn display_text(class: Seq<char>, id: u64) -> Seq<char> {
    "<"@ + class + "#"@ + decimal(id as nat) + ">"@
}

/// How a handle to the object `id` of the class named `class` is shown
/// for debugging.
pub open spec fn debug_text(class: Seq<char>, id: u64) -> Seq<char> {
    "Gd { id: "@ + decimal(id as nat) + ", class: "@ + class + " }"@
}

/// The text of one decimal digit.
fn digit_str(d: u64) -> (text: &'static str)
    requires
        d < 10,
    ensures
        text@ == digit_text(d as nat),
{
    if d == 0 {
        "0"
    } else if d == 1 {
        "1"
    } else if d == 2 {
        "2"
    } else if d == 3 {
        "3"
    } else if d == 4 {
        "4"
    } else if d == 5 {
        "5"
    } else if d == 6 {
        "6"
    } else if d == 7 {
        "7"
    } else if d == 8 {
        "8"
    } else {
        "9"
    }
}

/// Appends `n`, written in decimal, to `out`.
pub fn push_decimal(out: &mut String, n: u64)
    ensures
        final(out)@ == old(out)@ + decimal(n as nat),
    decreases n,
{
    if n >= 10 {
        push_decimal(out, n / 10);
    }
    out.append(digit_str(n % 10));
    assert(out@ =~= old(out)@ + decimal(n as nat));
}

impl<P> Engine<P> {
    /// The text that shows a handle. An object whose class has a text of
    /// its own, given as `custom`, is shown by that text; any other by the
    /// name of its actual class and its instance id. The object must live.
    pub fn display(&self, handle: &Gd, custom: Option<String>) -> (text: String)
        requires
            self.wf(),
            self@.contains_key(handle.id()),
        ensures
            text@ == match custom {
                Some(c) => c@,
                None => display_text(
                    self.classes()[self@[handle.id()].class as int].name@,
                    handle.id(),
                ),
            },
    {
        let id = handle.raw_id();
        match custom {
            Some(c) => c,
            None => {
                let class = self.class_of(id);
                let mut out = "<".to_owned();
                out.append(self.class_table().name(class).as_str());
                out.append("#");
                push_decimal(&mut out, id);
                out.append(">");
                out
            },
        }
    }

    /// The text that shows a handle for debugging: its instance id and the
    /// name of the object's actual class. The object must live.
    pub fn debug(&self, handle: &Gd) -> (text: String)
        requires
            self.wf(),
            self@.contains_key(handle.id()),
        ensures
            text@ == debug_text(
                self.classes()[self@[handle.id()].class as int].name@,
                handle.id(),
            ),
    {
        let id = handle.raw_id();
        let class = self.class_of(id);
        let mut out = "Gd { id: ".to_owned();
        push_decimal(&mut out, id);
        out.append(", class: ");
        out.append(self.class_table().name(class).as_str());
        out.append(" }");
        out
    }
}

} // verus!
