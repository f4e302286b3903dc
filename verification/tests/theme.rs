use gitara::theme::{startup_mode, toggled, ThemeMode};

#[test]
fn toggling_flips_and_flips_back() {
    assert_eq!(toggled(ThemeMode::Light), ThemeMode::Dark);
    assert_eq!(toggled(ThemeMode::Dark), ThemeMode::Light);
    for m in [ThemeMode::Light, ThemeMode::Dark] {
        assert_eq!(toggled(toggled(m)), m);
    }
}

#[test]
fn forced_modes_win_over_the_setting() {
    assert_eq!(startup_mode(true, true, ThemeMode::Light), ThemeMode::Dark);
    assert_eq!(startup_mode(false, true, ThemeMode::Dark), ThemeMode::Light);
    assert_eq!(startup_mode(false, false, ThemeMode::Light), ThemeMode::Light);
}
