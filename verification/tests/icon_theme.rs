use earth_files::config::Config;
use earth_files::icon_theme::{
    gtk_icon_theme_in_text, resolve, set_default, set_from_config, DefaultTheme, HICOLOR,
};

#[test]
fn default_applies_before_initialisation() {
    // The theme is never unset: reading it yields the fallback the resolver
    // ends on.
    assert!(!earth_files::icon_theme::default(&DefaultTheme::new()).is_empty());
}

#[test]
fn configured_theme_wins() {
    // Set in our own config, so no portal call and no file read happen.
    assert_eq!(
        resolve(Some("Gruvbox-Plus-Dark"), || None, || None, || None),
        "Gruvbox-Plus-Dark"
    );
}

#[test]
fn blank_configured_theme_is_treated_as_unset() {
    // An empty or whitespace name must not become the icon theme; it falls
    // through to the desktop, and in the worst case to `hicolor`.
    assert_ne!(resolve(Some("   "), || None, || None, || None), "   ");
    assert!(!resolve(Some(""), || None, || None, || None).is_empty());
}

#[test]
fn config_default_is_unset() {
    assert_eq!(Config::default().icon_theme, None);
}

#[test]
fn the_desktop_is_asked_in_order_until_one_answers() {
    assert_eq!(
        resolve(None, || None, || Some(String::from("Papirus")), || Some(String::from("Adwaita"))),
        "Papirus"
    );
    assert_eq!(
        resolve(Some(" "), || Some(String::from("Portal")), || panic!("asked gsettings"), || panic!("asked gtk")),
        "Portal"
    );
    assert_eq!(resolve(None, || None, || None, || None), HICOLOR);
}

#[test]
fn an_empty_name_counts_as_no_answer() {
    assert_eq!(
        resolve(None, || Some(String::new()), || Some(String::from("Papirus")), || None),
        "Papirus"
    );
    assert_eq!(resolve(None, || Some(String::new()), || None, || None), HICOLOR);
    assert_eq!(
        resolve(None, || None, || Some(String::new()), || Some(String::from("Adwaita"))),
        "Adwaita"
    );
    assert_eq!(resolve(None, || None, || None, || Some(String::new())), HICOLOR);
}

#[test]
fn gtk_settings_are_read() {
    // Nothing there at all.
    assert_eq!(gtk_icon_theme_in_text(""), None);
    assert_eq!(
        gtk_icon_theme_in_text(
            "[Settings]\n\
             #gtk-icon-theme-name=Commented-Out\n\
             gtk-cursor-theme-name=Some Cursors\n\
             gtk-icon-theme-name = Gruvbox-Plus-Dark \n",
        )
        .as_deref(),
        Some("Gruvbox-Plus-Dark")
    );
    // A key with no value is not a theme name.
    assert_eq!(gtk_icon_theme_in_text("[Settings]\ngtk-icon-theme-name=\n"), None);
}

#[test]
fn the_fallback_theme_can_be_replaced() {
    let mut theme = DefaultTheme::new();
    assert_eq!(earth_files::icon_theme::default(&theme), HICOLOR);
    set_default(&mut theme, String::from("Cosmic"));
    assert_eq!(earth_files::icon_theme::default(&theme), "Cosmic");

    let mut config = Config::default();
    config.icon_theme = Some(String::from("Breeze"));
    set_from_config(&mut theme, &config, || None, || None, || None);
    assert_eq!(earth_files::icon_theme::default(&theme), "Breeze");
}
