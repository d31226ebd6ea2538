use vstd::prelude::*;

verus! {

/// An RGB color with one byte per channel.
pub struct RgbColor {
    pub red: u8,
    pub green: u8,
    pub blue: u8,
}

/// The 24-bit integer `0xRRGGBB` of a color.
pub open spec fn rgb_value(red: u8, green: u8, blue: u8) -> int {
    red as int * 65536 + green as int * 256 + blue as int
}

impl RgbColor {
    pub fn new(red: u8, green: u8, blue: u8) -> (r: RgbColor)
        ensures
            r.red == red,
            r.green == green,
            r.blue == blue,
    {
        RgbColor { red, green, blue }
    }

    /// The color packed as `0xRRGGBB`.
    pub fn rgb(&self) -> (r: i32)
        ensures
            r as int == rgb_value(self.red, self.green, self.blue),
    {
        (self.red as i32) * 65536 + (self.green as i32) * 256 + (self.blue as i32)
    }
}

} // verus!
