use vstd::prelude::*;

verus! {

/// A colour as 8-bit red, green and blue intensities.
#[derive(Clone, Copy, Debug, PartialEq, Eq, Structural)]
pub struct Rgb {
    pub r: u8,
    pub g: u8,
    pub b: u8,
}

/// The four colours everything is drawn in, from lightest to darkest.
#[derive(Clone, Copy, Debug, PartialEq, Eq, Structural)]
pub struct ColorPalette {
    pub color_1: Rgb,
    pub color_2: Rgb,
    pub color_3: Rgb,
    pub color_4: Rgb,
}

/// The colour palettes the game can be drawn in.
#[derive(Clone, Copy, Debug, PartialEq, Eq, Structural)]
pub enum ColorPalettePresets {
    Default,
    Grayscale,
    SuperGreen,
}

pub open spec fn rgb(r: u8, g: u8, b: u8) -> Rgb {
    Rgb { r, g, b }
}

/// The colours of each palette.
pub open spec fn spec_palette(preset: ColorPalettePresets) -> ColorPalette {
    match preset {
        ColorPalettePresets::Default => ColorPalette {
            color_1: rgb(224, 248, 208),
            color_2: rgb(136, 192, 112),
            color_3: rgb(52, 104, 86),
            color_4: rgb(8, 24, 32),
        },
        ColorPalettePresets::Grayscale => ColorPalette {
            color_1: rgb(248, 248, 248),
            color_2: rgb(168, 168, 168),
            color_3: rgb(96, 96, 96),
            color_4: rgb(0, 0, 0),
        },
        ColorPalettePresets::SuperGreen => ColorPalette {
            color_1: rgb(155, 188, 15),
            color_2: rgb(139, 172, 15),
            color_3: rgb(48, 98, 48),
            color_4: rgb(15, 56, 15),
        },
    }
}

impl ColorPalettePresets {
    /// The colours of the palette (see [`spec_palette`]).
    pub fn to_color_palette(self) -> (palette: ColorPalette)
        ensures
            palette == spec_palette(self),
    {
        match self {
            ColorPalettePresets::Default => ColorPalette {
                color_1: Rgb { r: 224, g: 248, b: 208 },
                color_2: Rgb { r: 136, g: 192, b: 112 },
                color_3: Rgb { r: 52, g: 104, b: 86 },
                color_4: Rgb { r: 8, g: 24, b: 32 },
            },
            ColorPalettePresets::Grayscale => ColorPalette {
                color_1: Rgb { r: 248, g: 248, b: 248 },
                color_2: Rgb { r: 168, g: 168, b: 168 },
                color_3: Rgb { r: 96, g: 96, b: 96 },
                color_4: Rgb { r: 0, g: 0, b: 0 },
            },
            ColorPalettePresets::SuperGreen => ColorPalette {
                color_1: Rgb { r: 155, g: 188, b: 15 },
                color_2: Rgb { r: 139, g: 172, b: 15 },
                color_3: Rgb { r: 48, g: 98, b: 48 },
                color_4: Rgb { r: 15, g: 56, b: 15 },
            },
        }
    }
}

/// Every palette runs from light to dark: each colour is darker than the
/// one before in the sum of its intensities.
pub proof fn law_palettes_run_light_to_dark(preset: ColorPalettePresets)
    ensures
        ({
            let p = spec_palette(preset);
            let sum = |c: Rgb| c.r + c.g + c.b;
            &&& sum(p.color_1) > sum(p.color_2)
            &&& sum(p.color_2) > sum(p.color_3)
            &&& sum(p.color_3) > sum(p.color_4)
        }),
{
}

} // verus!
