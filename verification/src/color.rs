//! 8-bit RGB colors.

use vstd::prelude::*;

use crate::text::{decimal, push_decimal};

verus! {

/// An RGB color with 8 bits per component.
#[derive(Clone, Copy, Debug, PartialEq, Eq, Structural)]
pub struct Color {
    pub red: u8,
    pub green: u8,
    pub blue: u8,
}

/// A color point sent to a LED device.
pub type ColorPoint = Color;

impl Color {
    /// Builds a color from its red, green and blue components.
    pub fn new(red: u8, green: u8, blue: u8) -> (c: Color)
        ensures
            c == (Color { red, green, blue }),
    {
        Color { red, green, blue }
    }

    /// Returns the (red, green, blue) components of this color.
    pub fn into_components(self) -> (r: (u8, u8, u8))
        ensures
            r == (self.red, self.green, self.blue),
    {
        (self.red, self.green, self.blue)
    }

    /// The debug text of this color: `Color { red: R, green: G, blue: B }`.
    pub open spec fn spec_debug(self) -> Seq<char> {
        "Color { red: "@ + decimal(self.red as nat) + ", green: "@ + decimal(self.green as nat)
            + ", blue: "@ + decimal(self.blue as nat) + " }"@
    }

    /// Appends the debug text of this color to `out`.
    pub fn push_debug(&self, out: &mut String)
        ensures
            final(out)@ == old(out)@ + self.spec_debug(),
    {
        out.append("Color { red: ");
        push_decimal(out, self.red as u64);
        out.append(", green: ");
        push_decimal(out, self.green as u64);
        out.append(", blue: ");
        push_decimal(out, self.blue as u64);
        out.append(" }");
        assert(out@ =~= old(out)@ + self.spec_debug());
    }
}

} // verus!
