use earth_files::config::{Config, INTERFACE_FONT_DEFAULT, MONOSPACE_FONT_DEFAULT};
use earth_files::font::{bold, families, intern, light, mono, semibold, set_families, FamilyNames, FontFamilies, Weight};

#[test]
fn interning_is_stable() {
    let mut table = FamilyNames::new();
    let first = intern(&mut table, "Some Family");
    let second = intern(&mut table, &String::from("Some Family"));
    assert!(std::ptr::eq(first, second), "family leaked twice");
}

#[test]
fn interning_keeps_different_families_apart() {
    let mut table = FamilyNames::new();
    let a = intern(&mut table, "Open Sans");
    let b = intern(&mut table, "Noto Sans Mono");
    assert_eq!(a, "Open Sans");
    assert_eq!(b, "Noto Sans Mono");
    assert!(!std::ptr::eq(a, b));
}

#[test]
fn defaults_are_the_bundled_fonts() {
    let fonts = FontFamilies::new();
    let f = families(&fonts);
    assert_eq!(f.interface, INTERFACE_FONT_DEFAULT);
    assert_eq!(f.monospace, MONOSPACE_FONT_DEFAULT);
}

#[test]
fn configured_families_are_used() {
    let mut fonts = FontFamilies::new();
    let mut config = Config::default();
    config.interface_font = String::from("Inter");
    config.monospace_font = String::from("Fira Mono");
    set_families(&mut fonts, &config);
    let f = families(&fonts);
    assert_eq!(f.interface, "Inter");
    assert_eq!(f.monospace, "Fira Mono");
}

#[test]
fn defaults_apply_before_initialisation() {
    // Before the configuration is read, the fonts are the defaults.
    let fonts = FontFamilies::new();
    assert_eq!(earth_files::font::default(&fonts).family, INTERFACE_FONT_DEFAULT);
    assert_eq!(bold(&fonts).weight, Weight::Bold);
    assert_eq!(earth_files::font::default(&fonts).weight, Weight::Normal);
}

#[test]
fn every_weight_keeps_the_interface_family_and_mono_its_own() {
    let mut fonts = FontFamilies::new();
    let mut config = Config::default();
    config.interface_font = String::from("Inter");
    config.monospace_font = String::from("Fira Mono");
    set_families(&mut fonts, &config);
    assert_eq!(light(&fonts).family, "Inter");
    assert_eq!(light(&fonts).weight, Weight::Light);
    assert_eq!(semibold(&fonts).weight, Weight::Semibold);
    assert_eq!(semibold(&fonts).family, "Inter");
    assert_eq!(mono(&fonts).family, "Fira Mono");
    assert_eq!(mono(&fonts).weight, Weight::Normal);
}
