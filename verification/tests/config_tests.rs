use longinus::ability::ManaTanksCapacityInfo;
use longinus::balance::{DebugConfig, StatusEffectBalancing};
use longinus::effects::EffectKind;
use longinus::graphics::{ColorPalettePresets, Rgb};

#[test]
fn mana_tank_capacity_defaults_to_none() {
    let info = ManaTanksCapacityInfo::default();
    assert_eq!(info.auto_recharge_mana_tanks, 0);
    assert_eq!(info.non_recharge_mana_tanks, 0);
}

#[test]
fn plain_settings_hold_their_values() {
    let balancing = StatusEffectBalancing { steps: 4 };
    assert_eq!(balancing.steps, 4);
    let debug = DebugConfig { show_colliders: true };
    assert!(debug.show_colliders);
    assert_eq!(EffectKind::NoiseDissolve, EffectKind::NoiseDissolve);
    assert_ne!(ColorPalettePresets::Default, ColorPalettePresets::Grayscale);
    assert_ne!(ColorPalettePresets::Grayscale, ColorPalettePresets::SuperGreen);
}

#[test]
fn palettes_hold_their_colours() {
    let default = ColorPalettePresets::Default.to_color_palette();
    assert_eq!(default.color_1, Rgb { r: 224, g: 248, b: 208 });
    assert_eq!(default.color_4, Rgb { r: 8, g: 24, b: 32 });
    let gray = ColorPalettePresets::Grayscale.to_color_palette();
    assert_eq!(gray.color_2, Rgb { r: 168, g: 168, b: 168 });
    let green = ColorPalettePresets::SuperGreen.to_color_palette();
    assert_eq!(green.color_3, Rgb { r: 48, g: 98, b: 48 });
}

#[test]
fn palettes_run_light_to_dark() {
    for preset in [ColorPalettePresets::Default, ColorPalettePresets::Grayscale, ColorPalettePresets::SuperGreen] {
        let p = preset.to_color_palette();
        let sum = |c: Rgb| c.r as u32 + c.g as u32 + c.b as u32;
        assert!(sum(p.color_1) > sum(p.color_2));
        assert!(sum(p.color_2) > sum(p.color_3));
        assert!(sum(p.color_3) > sum(p.color_4));
    }
}
