//! Updates of the state of the LED devices.

use vstd::prelude::*;

use crate::color::ColorPoint;
use crate::image::RawImage;
use crate::text::{decimal, push_decimal};

verus! {

/// State update data.
#[derive(Clone)]
pub enum StateUpdate {
    /// Clear all devices.
    Clear,
    /// Set all devices to a given color.
    SolidColor {
        /// Color to apply to the devices.
        color: ColorPoint,
    },
    /// Use the given image to set colors.
    Image(RawImage),
    /// Per-LED color data.
    LedData(Vec<ColorPoint>),
}

impl StateUpdate {
    /// The debug text of the update: the kind of update, with the color, the
    /// dimensions of the image, or the number of LEDs.
    pub open spec fn spec_debug(&self) -> Seq<char> {
        match self {
            StateUpdate::Clear => "Clear"@,
            StateUpdate::SolidColor { color } => "SolidColor { color: "@ + color.spec_debug()
                + " }"@,
            StateUpdate::Image(image) => "Image("@ + decimal(image.cols()) + "x"@ + decimal(
                image.rows(),
            ) + " image)"@,
            StateUpdate::LedData(led_data) => "LedData("@ + decimal(led_data@.len()) + " LEDs)"@,
        }
    }

    /// Returns the debug text of the update.
    pub fn debug_string(&self) -> (s: String)
        ensures
            s@ == self.spec_debug(),
    {
        match self {
            StateUpdate::Clear => String::from_str("Clear"),
            StateUpdate::SolidColor { color } => {
                let mut s = String::from_str("SolidColor { color: ");
                color.push_debug(&mut s);
                s.append(" }");
                s
            },
            StateUpdate::Image(image) => {
                let (width, height) = image.get_dimensions();
                let mut s = String::from_str("Image(");
                push_decimal(&mut s, width as u64);
                s.append("x");
                push_decimal(&mut s, height as u64);
                s.append(" image)");
                s
            },
            StateUpdate::LedData(led_data) => {
                let mut s = String::from_str("LedData(");
                push_decimal(&mut s, led_data.len() as u64);
                s.append(" LEDs)");
                s
            },
        }
    }

    /// Create a Clear StateUpdate.
    pub fn clear() -> (r: Self)
        ensures
            r == StateUpdate::Clear,
    {
        Self::Clear
    }

    /// Create a SolidColor StateUpdate, with the color to apply to the devices.
    pub fn solid(color: ColorPoint) -> (r: Self)
        ensures
            r == (StateUpdate::SolidColor { color }),
    {
        Self::SolidColor { color }
    }

    /// Create an Image StateUpdate, with the raw image to extract colors from.
    pub fn image(image: RawImage) -> (r: Self)
        ensures
            r == StateUpdate::Image(image),
    {
        Self::Image(image)
    }

    /// Create a LedData StateUpdate, with the LED data.
    pub fn led_data(led_data: Vec<ColorPoint>) -> (r: Self)
        ensures
            r == StateUpdate::LedData(led_data),
    {
        Self::LedData(led_data)
    }
}

} // verus!
