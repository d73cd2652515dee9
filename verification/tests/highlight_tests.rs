use editor_core::highlight::{settings_for, Theme};

fn extension_for(path: Option<&str>) -> String {
    let p = path.map(|s| s.to_string());
    settings_for(Theme::SolarizedDark, &p).extension
}

#[test]
fn extension_of_plain_file() {
    assert_eq!(extension_for(Some("foo.rs")), "rs");
    assert_eq!(extension_for(Some("notes.txt")), "txt");
}

#[test]
fn extension_takes_last_dot() {
    assert_eq!(extension_for(Some("a/b.tar.gz")), "gz");
}

#[test]
fn extension_ignores_dots_in_directories() {
    assert_eq!(extension_for(Some("dir.d/plain")), "rs");
    assert_eq!(extension_for(Some("dir.d/code.py")), "py");
}

#[test]
fn missing_extension_falls_back() {
    assert_eq!(extension_for(Some("noext")), "rs");
    assert_eq!(extension_for(None), "rs");
}

#[test]
fn leading_dot_is_not_an_extension() {
    assert_eq!(extension_for(Some(".gitignore")), "rs");
    assert_eq!(extension_for(Some("a/.hidden")), "rs");
    assert_eq!(extension_for(Some(".config.toml")), "toml");
}

#[test]
fn settings_keep_theme() {
    let s = settings_for(Theme::Base16Ocean, &None);
    assert_eq!(s.theme, Theme::Base16Ocean);
}

#[test]
fn dark_themes() {
    assert!(Theme::SolarizedDark.is_dark());
    assert!(Theme::Base16Mocha.is_dark());
    assert!(Theme::Base16Ocean.is_dark());
    assert!(Theme::Base16Eighties.is_dark());
    assert!(!Theme::InspiredGitHub.is_dark());
}

#[test]
fn all_themes_listed() {
    let all = Theme::all();
    assert_eq!(all.len(), 5);
    assert_eq!(all[0], Theme::SolarizedDark);
    assert_eq!(all[4], Theme::InspiredGitHub);
}
