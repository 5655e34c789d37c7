//! The map palette, the three shading levels and the pixel they combine into.

use vstd::prelude::*;

verus! {

/// A palette entry. [`MapColor::Clear`] stands for "nothing drawn here": a
/// column scan that meets it keeps looking further down.
#[derive(Debug, Clone, Copy, PartialEq, Eq, Structural)]
pub enum MapColor {
    Clear,
    PaleGreen,
    PaleYellow,
    WhiteGray,
    BrightRed,
    PalePurple,
    IronGray,
    DarkGreen,
    White,
    LightBlueGray,
    DirtBrown,
    StoneGray,
    WaterBlue,
    OakTan,
    OffWhite,
    Orange,
    Magenta,
    LightBlue,
    Yellow,
    Lime,
    Pink,
    Gray,
    LightGray,
    Cyan,
    Purple,
    Blue,
    Brown,
    Green,
    Red,
    Black,
    Gold,
    DiamondBlue,
    LapisBlue,
    EmeraldGreen,
    SpruceBrown,
    DarkRed,
    TerracottaWhite,
    TerracottaOrange,
    TerracottaMagenta,
    TerracottaLightBlue,
    TerracottaYellow,
    TerracottaLime,
    TerracottaPink,
    TerracottaGray,
    TerracottaLightGray,
    TerracottaCyan,
    TerracottaPurple,
    TerracottaBlue,
    TerracottaBrown,
    TerracottaGreen,
    TerracottaRed,
    TerracottaBlack,
    DullRed,
    DullPink,
    DarkCrimson,
    Teal,
    DarkAqua,
    DarkDullPink,
    BrightTeal,
    DeepslateGray,
    RawIronPink,
    LichenGreen,
}

/// A brightness level applied to a palette entry.
#[derive(Debug, Clone, Copy, PartialEq, Eq, Structural)]
pub enum Tint {
    Dark,
    Normal,
    Light,
}

/// One RGBA pixel, eight bits per channel.
#[derive(Debug, Clone, Copy, PartialEq, Eq, Structural)]
pub struct Rgba8 {
    pub r: u8,
    pub g: u8,
    pub b: u8,
    pub a: u8,
}

/// The rule by which a block's properties select its palette entry.
#[derive(Debug, Clone, Copy, PartialEq, Eq, Structural)]
pub enum BlockMapColor {
    Single(MapColor),
    Bed { head: MapColor, foot: MapColor },
    Crops { growing: MapColor, grown: MapColor },
    Pillar { top: MapColor, side: MapColor },
    Waterloggable { dry: MapColor, wet: MapColor },
}

/// The fully transparent pixel.
pub open spec fn transparent() -> Rgba8 {
    Rgba8 { r: 0, g: 0, b: 0, a: 0 }
}

/// One channel scaled by a multiplier out of 255, rounded down.
pub open spec fn scale_channel(channel: int, multiplier: int) -> int {
    channel * multiplier / 255
}

/// The opaque pixel of a packed `0xRRGGBB` base color under a multiplier.
pub open spec fn shaded_pixel(rgb: int, multiplier: int) -> Rgba8 {
    Rgba8 {
        r: scale_channel(rgb / 65536 % 256, multiplier) as u8,
        g: scale_channel(rgb / 256 % 256, multiplier) as u8,
        b: scale_channel(rgb % 256, multiplier) as u8,
        a: 255,
    }
}

impl Tint {
    /// The multiplier as a number: 180, 220 or 255.
    pub open spec fn strength(self) -> int {
        match self {
            Tint::Dark => 180,
            Tint::Normal => 220,
            Tint::Light => 255,
        }
    }

    /// The intensity, out of 255, that this level leaves of every channel.
    pub fn multiplier(&self) -> (m: u16)
        ensures
            m == self.strength(),
    {
        match self {
            Tint::Dark => 180,
            Tint::Normal => 220,
            Tint::Light => 255,
        }
    }
}

impl MapColor {
    /// The packed `0xRRGGBB` base color; `Clear` has none.
    pub open spec fn rgb(self) -> Option<int> {
        match self {
            MapColor::Clear => None,
            other => Some(other.packed()),
        }
    }

    /// The palette table itself. The value for `Clear` is never drawn.
    pub open spec fn packed(self) -> int {
        match self {
            MapColor::Clear => 0,
            MapColor::PaleGreen => 8368696,
            MapColor::PaleYellow => 16247203,
            MapColor::WhiteGray => 13092807,
            MapColor::BrightRed => 16711680,
            MapColor::PalePurple => 10526975,
            MapColor::IronGray => 10987431,
            MapColor::DarkGreen => 31744,
            MapColor::White => 16777215,
            MapColor::LightBlueGray => 10791096,
            MapColor::DirtBrown => 9923917,
            MapColor::StoneGray => 7368816,
            MapColor::WaterBlue => 4210943,
            MapColor::OakTan => 9402184,
            MapColor::OffWhite => 16776437,
            MapColor::Orange => 14188339,
            MapColor::Magenta => 11685080,
            MapColor::LightBlue => 6724056,
            MapColor::Yellow => 15066419,
            MapColor::Lime => 8375321,
            MapColor::Pink => 15892389,
            MapColor::Gray => 5000268,
            MapColor::LightGray => 10066329,
            MapColor::Cyan => 5013401,
            MapColor::Purple => 8339378,
            MapColor::Blue => 3361970,
            MapColor::Brown => 6704179,
            MapColor::Green => 6717235,
            MapColor::Red => 10040115,
            MapColor::Black => 1644825,
            MapColor::Gold => 16445005,
            MapColor::DiamondBlue => 6085589,
            MapColor::LapisBlue => 4882687,
            MapColor::EmeraldGreen => 55610,
            MapColor::SpruceBrown => 8476209,
            MapColor::DarkRed => 7340544,
            MapColor::TerracottaWhite => 13742497,
            MapColor::TerracottaOrange => 10441252,
            MapColor::TerracottaMagenta => 9787244,
            MapColor::TerracottaLightBlue => 7367818,
            MapColor::TerracottaYellow => 12223780,
            MapColor::TerracottaLime => 6780213,
            MapColor::TerracottaPink => 10505550,
            MapColor::TerracottaGray => 3746083,
            MapColor::TerracottaLightGray => 8874850,
            MapColor::TerracottaCyan => 5725276,
            MapColor::TerracottaPurple => 8014168,
            MapColor::TerracottaBlue => 4996700,
            MapColor::TerracottaBrown => 4993571,
            MapColor::TerracottaGreen => 5001770,
            MapColor::TerracottaRed => 9321518,
            MapColor::TerracottaBlack => 2430480,
            MapColor::DullRed => 12398641,
            MapColor::DullPink => 9715553,
            MapColor::DarkCrimson => 6035741,
            MapColor::Teal => 1474182,
            MapColor::DarkAqua => 3837580,
            MapColor::DarkDullPink => 5647422,
            MapColor::BrightTeal => 1356933,
            MapColor::DeepslateGray => 6579300,
            MapColor::RawIronPink => 14200723,
            MapColor::LichenGreen => 8365974,
        }
    }

    /// The pixel that this entry draws under a shading level: transparent
    /// for `Clear`, else every channel of the base color scaled by the
    /// level's multiplier, fully opaque.
    pub open spec fn tinted(self, tint: Tint) -> Rgba8 {
        match self.rgb() {
            None => transparent(),
            Some(rgb) => shaded_pixel(rgb, tint.strength()),
        }
    }

    /// Whether this entry is `Clear`.
    pub fn is_clear(&self) -> (c: bool)
        ensures
            c == (*self == MapColor::Clear),
    {
        match self {
            MapColor::Clear => true,
            _ => false,
        }
    }

    /// The packed `0xRRGGBB` base color, or `None` for `Clear`.
    pub fn base_rgb(&self) -> (rgb: Option<u32>)
        ensures
            rgb is Some <==> *self != MapColor::Clear,
            rgb is Some ==> self.rgb() == Some(rgb->0 as int),
            rgb is Some ==> rgb->0 < 16777216,
    {
        match self {
            MapColor::Clear => None,
            MapColor::PaleGreen => Some(8368696),
            MapColor::PaleYellow => Some(16247203),
            MapColor::WhiteGray => Some(13092807),
            MapColor::BrightRed => Some(16711680),
            MapColor::PalePurple => Some(10526975),
            MapColor::IronGray => Some(10987431),
            MapColor::DarkGreen => Some(31744),
            MapColor::White => Some(16777215),
            MapColor::LightBlueGray => Some(10791096),
            MapColor::DirtBrown => Some(9923917),
            MapColor::StoneGray => Some(7368816),
            MapColor::WaterBlue => Some(4210943),
            MapColor::OakTan => Some(9402184),
            MapColor::OffWhite => Some(16776437),
            MapColor::Orange => Some(14188339),
            MapColor::Magenta => Some(11685080),
            MapColor::LightBlue => Some(6724056),
            MapColor::Yellow => Some(15066419),
            MapColor::Lime => Some(8375321),
            MapColor::Pink => Some(15892389),
            MapColor::Gray => Some(5000268),
            MapColor::LightGray => Some(10066329),
            MapColor::Cyan => Some(5013401),
            MapColor::Purple => Some(8339378),
            MapColor::Blue => Some(3361970),
            MapColor::Brown => Some(6704179),
            MapColor::Green => Some(6717235),
            MapColor::Red => Some(10040115),
            MapColor::Black => Some(1644825),
            MapColor::Gold => Some(16445005),
            MapColor::DiamondBlue => Some(6085589),
            MapColor::LapisBlue => Some(4882687),
            MapColor::EmeraldGreen => Some(55610),
            MapColor::SpruceBrown => Some(8476209),
            MapColor::DarkRed => Some(7340544),
            MapColor::TerracottaWhite => Some(13742497),
            MapColor::TerracottaOrange => Some(10441252),
            MapColor::TerracottaMagenta => Some(9787244),
            MapColor::TerracottaLightBlue => Some(7367818),
            MapColor::TerracottaYellow => Some(12223780),
            MapColor::TerracottaLime => Some(6780213),
            MapColor::TerracottaPink => Some(10505550),
            MapColor::TerracottaGray => Some(3746083),
            MapColor::TerracottaLightGray => Some(8874850),
            MapColor::TerracottaCyan => Some(5725276),
            MapColor::TerracottaPurple => Some(8014168),
            MapColor::TerracottaBlue => Some(4996700),
            MapColor::TerracottaBrown => Some(4993571),
            MapColor::TerracottaGreen => Some(5001770),
            MapColor::TerracottaRed => Some(9321518),
            MapColor::TerracottaBlack => Some(2430480),
            MapColor::DullRed => Some(12398641),
            MapColor::DullPink => Some(9715553),
            MapColor::DarkCrimson => Some(6035741),
            MapColor::Teal => Some(1474182),
            MapColor::DarkAqua => Some(3837580),
            MapColor::DarkDullPink => Some(5647422),
            MapColor::BrightTeal => Some(1356933),
            MapColor::DeepslateGray => Some(6579300),
            MapColor::RawIronPink => Some(14200723),
            MapColor::LichenGreen => Some(8365974),
        }
    }

    /// Draws this entry under a shading level.
    pub fn tint(&self, tint: Tint) -> (pixel: Rgba8)
        ensures
            pixel == self.tinted(tint),
            *self == MapColor::Clear ==> pixel == transparent(),
            *self != MapColor::Clear ==> pixel.a == 255,
    {
        match self.base_rgb() {
            None => Rgba8 { r: 0, g: 0, b: 0, a: 0 },
            Some(rgb) => {
                let m: u32 = tint.multiplier() as u32;
                let r: u32 = rgb / 65536 % 256 * m / 255;
                let g: u32 = rgb / 256 % 256 * m / 255;
                let b: u32 = rgb % 256 * m / 255;
                Rgba8 { r: r as u8, g: g as u8, b: b as u8, a: 255 }
            },
        }
    }
}

} // verus!
