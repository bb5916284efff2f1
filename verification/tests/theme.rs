use aster::system_colors::{selection_background, ThemeColor};
use aster::theme::{rgb, set_theme, Theme, ThemeName, ThemeSettings};

#[test]
fn keeps_the_theme_color_when_the_platform_has_no_system_color() {
    let fallback = rgb(0x123456);
    let platform: Option<u8> = None;
    assert_eq!(selection_background(platform, fallback), ThemeColor::Palette(fallback));
}

#[test]
fn set_theme_takes_effect() {
    let mut settings = ThemeSettings { theme_name: ThemeName::AyuLight };
    assert!(!Theme::is_dark(&settings));
    assert!(set_theme(&mut settings, ThemeName::AyuMirage));
    assert_eq!(Theme::name(&settings), ThemeName::AyuMirage);
    assert!(Theme::is_dark(&settings));
    assert_eq!(Theme::bg(&settings).hex, 0x1f2430ff);
}
