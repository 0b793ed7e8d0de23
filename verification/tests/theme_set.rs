use syntect::loader::{LoadEvent, Loading};
use syntect::path::{is_theme_path, WalkEntry};
use syntect::settings::{begins_binary, holds_date_tag, read_plist, settings_from, SettingsError};
use syntect::theme::{
    Color, ParseSyntaxError, ParseThemeError, StyleModifier, Theme, ThemeItem, ThemeSettings,
};
use syntect::theme_set::{ThemeSet, ThemeSetError, WalkFailure};
use syntect::{ErrorKind, LoadingError};

fn file(path: &str) -> Result<WalkEntry, walkdir::Error> {
    Ok(WalkEntry { path: path.to_string(), is_dir: false })
}

fn dir(path: &str) -> Result<WalkEntry, walkdir::Error> {
    Ok(WalkEntry { path: path.to_string(), is_dir: true })
}

fn walk_failure() -> walkdir::Error {
    let mut steps = walkdir::WalkDir::new("no-such-folder/for-this-walk").into_iter();
    match steps.next() {
        Some(Err(error)) => error,
        _ => panic!("a walk of a missing folder must fail"),
    }
}

fn not_found() -> std::io::Error {
    std::io::Error::from(std::io::ErrorKind::NotFound)
}

fn hex(c: u8) -> Option<u8> {
    match c {
        b'0'..=b'9' => Some(c - b'0'),
        b'a'..=b'f' => Some(c - b'a' + 10),
        b'A'..=b'F' => Some(c - b'A' + 10),
        _ => None,
    }
}

fn color(text: &str) -> Result<Color, ParseThemeError> {
    let b = text.as_bytes();
    if (b.len() != 7 && b.len() != 9) || b[0] != b'#' {
        return Err(ParseThemeError::IncorrectColor);
    }
    let mut parts = [0u8, 0u8, 0u8, 0xFFu8];
    for i in 0..(b.len() - 1) / 2 {
        match (hex(b[1 + 2 * i]), hex(b[2 + 2 * i])) {
            (Some(h), Some(l)) => parts[i] = h * 16 + l,
            _ => return Err(ParseThemeError::IncorrectColor),
        }
    }
    Ok(Color { r: parts[0], g: parts[1], b: parts[2], a: parts[3] })
}

fn color_at(table: &plist::Dictionary, key: &str) -> Result<Option<Color>, ParseThemeError> {
    match table.get(key) {
        None => Ok(None),
        Some(plist::Value::String(text)) => color(text).map(Some),
        Some(_) => Err(ParseThemeError::IncorrectColor),
    }
}

/// A theme parser for the tests: it reads the name, the global colours and
/// the colours of the scope rules.
fn interpret(tree: plist::Value) -> Result<Theme, ParseThemeError> {
    let root = tree.as_dictionary().ok_or(ParseThemeError::IncorrectSyntax)?;
    let name = root.get("name").and_then(|n| n.as_string()).map(|n| n.to_string());
    let items = root
        .get("settings")
        .and_then(|s| s.as_array())
        .ok_or(ParseThemeError::UndefinedSettings)?;
    let mut settings = ThemeSettings {
        foreground: None,
        background: None,
        caret: None,
        line_highlight: None,
        selection: None,
        selection_foreground: None,
        gutter: None,
        gutter_foreground: None,
    };
    let mut scopes = Vec::new();
    for item in items {
        let item = item.as_dictionary().ok_or(ParseThemeError::IncorrectSettings)?;
        let table = item
            .get("settings")
            .and_then(|s| s.as_dictionary())
            .ok_or(ParseThemeError::ColorShemeSettingsIsNotObject)?;
        match item.get("scope") {
            None => {
                settings.foreground = color_at(table, "foreground")?;
                settings.background = color_at(table, "background")?;
                settings.caret = color_at(table, "caret")?;
                settings.line_highlight = color_at(table, "lineHighlight")?;
                settings.selection = color_at(table, "selection")?;
            }
            Some(plist::Value::String(scope)) => scopes.push(ThemeItem {
                scope: scope.clone(),
                style: StyleModifier {
                    foreground: color_at(table, "foreground")?,
                    background: color_at(table, "background")?,
                    font_style: None,
                },
            }),
            Some(_) => return Err(ParseThemeError::ScopeSelectorIsNotString(String::new())),
        }
    }
    Ok(Theme { name, settings, scopes })
}

fn document(name: &str, selection: &str, foreground: &str) -> Vec<u8> {
    format!(
        "<?xml version=\"1.0\" encoding=\"UTF-8\"?>\n\
         <plist version=\"1.0\">\n<dict>\n\
         <key>name</key><string>{}</string>\n\
         <key>settings</key>\n<array>\n\
         <dict><key>settings</key><dict>\
         <key>background</key><string>#200020</string>\
         <key>selection</key><string>{}</string>\
         </dict></dict>\n\
         <dict><key>name</key><string>Comment</string>\
         <key>scope</key><string>comment.block</string>\
         <key>settings</key><dict>\
         <key>foreground</key><string>{}</string>\
         </dict></dict>\n\
         </array>\n</dict>\n</plist>\n",
        name, selection, foreground
    )
    .into_bytes()
}

fn contents(path: &str) -> Result<Vec<u8>, std::io::Error> {
    match path {
        "testdata/themes.tmbundle/Themes/Amy.tmTheme" => Ok(document("Amy", "#80000080", "#404080")),
        "testdata/themes.tmbundle/Themes/Dawn.tmTheme" => Ok(document("Dawn", "#275FFF4D", "#5A525F")),
        "testdata/themes.tmbundle/Themes/Deep/iPlastic.tmTheme" => {
            Ok(document("iPlastic", "#BAD6FD", "#0066FF"))
        }
        _ => Err(not_found()),
    }
}

/// Runs a load to its end: opens through `contents`, interprets through `interpret`.
fn load(path: &str) -> Result<Theme, ThemeSetError> {
    let mut state = Loading::start(path.to_string());
    loop {
        state = match state {
            Loading::Opening { path } => {
                let opened = contents(&path);
                ThemeSet::get_theme(Loading::Opening { path }, LoadEvent::Opened(opened))
            }
            Loading::Interpreting { settings } => {
                let interpreted = interpret(settings.clone());
                ThemeSet::get_theme(
                    Loading::Interpreting { settings },
                    LoadEvent::Interpreted(interpreted),
                )
            }
            Loading::Finished { outcome } => return outcome,
        }
    }
}

fn bundle() -> Vec<Result<WalkEntry, walkdir::Error>> {
    vec![
        dir("testdata/themes.tmbundle"),
        file("testdata/themes.tmbundle/info.plist"),
        dir("testdata/themes.tmbundle/Themes"),
        file("testdata/themes.tmbundle/Themes/Amy.tmTheme"),
        file("testdata/themes.tmbundle/Themes/Dawn.tmTheme"),
        dir("testdata/themes.tmbundle/Themes/Deep"),
        file("testdata/themes.tmbundle/Themes/Deep/iPlastic.tmTheme"),
        file("testdata/themes.tmbundle/Themes/Deep/readme.txt"),
    ]
}

#[test]
fn can_parse_common_themes() {
    let theme_paths = ThemeSet::discover_theme_paths(bundle()).unwrap();
    assert_eq!(theme_paths.len(), 3);
    for theme_path in theme_paths.iter() {
        println!("{:?}", theme_path);
        load(theme_path).unwrap();
    }

    let theme = load("testdata/themes.tmbundle/Themes/Amy.tmTheme").unwrap();
    assert_eq!(theme.name.unwrap(), "Amy");
    assert_eq!(theme.settings.selection.unwrap(), Color { r: 0x80, g: 0x00, b: 0x00, a: 0x80 });
    assert_eq!(
        theme.scopes[0].style.foreground.unwrap(),
        Color { r: 0x40, g: 0x40, b: 0x80, a: 0xFF }
    );
}

#[test]
fn discovery_without_theme_files_is_empty() {
    let walk = vec![
        dir("plain"),
        file("plain/notes.txt"),
        dir("plain/deeper"),
        file("plain/deeper/theme.plist"),
        file("plain/deeper/tmTheme"),
    ];
    assert_eq!(ThemeSet::discover_theme_paths(walk).unwrap(), Vec::<String>::new());
    assert_eq!(ThemeSet::discover_theme_paths(Vec::new()).unwrap(), Vec::<String>::new());
}

#[test]
fn discovery_keeps_exactly_the_theme_files() {
    let walk = vec![dir("d"), file("d/a.tmTheme"), file("d/b.txt"), dir("d/c"), file("d/c/d.tmTheme")];
    assert_eq!(
        ThemeSet::discover_theme_paths(walk).unwrap(),
        vec!["d/a.tmTheme".to_string(), "d/c/d.tmTheme".to_string()]
    );
    let nested = vec![
        dir("d"),
        dir("d/x"),
        file("d/x/b.txt"),
        file("d/a.tmTheme"),
        dir("d/c"),
        dir("d/c/y"),
        file("d/c/y/e.txt"),
        file("d/c/d.tmTheme"),
    ];
    assert_eq!(
        ThemeSet::discover_theme_paths(nested).unwrap(),
        vec!["d/a.tmTheme".to_string(), "d/c/d.tmTheme".to_string()]
    );
}

#[test]
fn discovery_skips_directories_named_like_themes() {
    let walk = vec![dir("d"), dir("d/folder.tmTheme"), file("d/folder.tmTheme/real.tmTheme")];
    assert_eq!(
        ThemeSet::discover_theme_paths(walk).unwrap(),
        vec!["d/folder.tmTheme/real.tmTheme".to_string()]
    );
}

#[test]
fn discovery_fails_with_the_first_walk_error() {
    let walk = vec![dir("d"), file("d/a.tmTheme"), Err(walk_failure()), file("d/b.tmTheme")];
    match ThemeSet::discover_theme_paths(walk) {
        Err(ThemeSetError::WalkDir(WalkFailure::Step(error))) => {
            assert_eq!(error.depth(), 0);
            let cause = error.io_error().unwrap();
            assert_eq!(cause.kind(), std::io::ErrorKind::NotFound);
        }
        other => panic!("unexpected outcome {:?}", other),
    }
}

#[test]
fn theme_extension_is_exact() {
    assert!(is_theme_path(b"a.tmTheme"));
    assert!(is_theme_path(b"dir/a.tmTheme"));
    assert!(is_theme_path(b"a.b.tmTheme"));
    assert!(is_theme_path(b"a..tmTheme"));
    assert!(is_theme_path("dir/\u{e9}t\u{e9}.tmTheme".as_bytes()));
    assert!(!is_theme_path(b".tmTheme"));
    assert!(!is_theme_path(b"dir/.tmTheme"));
    assert!(!is_theme_path(b"tmTheme"));
    assert!(!is_theme_path(b"a.tmtheme"));
    assert!(!is_theme_path(b"a.TMTHEME"));
    assert!(!is_theme_path(b"a.tmTheme.bak"));
    assert!(!is_theme_path(b"a.tmThemes"));
    assert!(!is_theme_path(b"atmTheme"));
    assert!(!is_theme_path(b""));
    assert!(!is_theme_path(b"a.tmTheme/b"));
    assert!(WalkEntry { path: "a.tmTheme".to_string(), is_dir: false }.is_theme_file());
    assert!(!WalkEntry { path: "a.tmTheme".to_string(), is_dir: true }.is_theme_file());
    assert!(!WalkEntry { path: "a.txt".to_string(), is_dir: false }.is_theme_file());
}

#[test]
fn loading_twice_gives_the_same_theme() {
    let first = load("testdata/themes.tmbundle/Themes/Dawn.tmTheme").unwrap();
    let second = load("testdata/themes.tmbundle/Themes/Dawn.tmTheme").unwrap();
    assert_eq!(first.name, Some("Dawn".to_string()));
    assert_eq!(first.name, second.name);
    assert_eq!(first.settings, second.settings);
    assert_eq!(first.scopes, second.scopes);
    assert_eq!(first.settings.selection, Some(Color { r: 0x27, g: 0x5F, b: 0xFF, a: 0x4D }));
}

#[test]
fn settings_without_theme_keys_fail_as_theme() {
    let bytes = b"<?xml version=\"1.0\"?><plist version=\"1.0\"><dict><key>other</key><string>x</string></dict></plist>".to_vec();
    let state = ThemeSet::get_theme(Loading::start("x.tmTheme".to_string()), LoadEvent::Opened(Ok(bytes)));
    let settings = match state {
        Loading::Interpreting { settings } => settings,
        other => panic!("unexpected state {:?}", other),
    };
    let interpreted = interpret(settings.clone());
    let end = ThemeSet::get_theme(Loading::Interpreting { settings }, LoadEvent::Interpreted(interpreted));
    match end.finish() {
        Ok(Err(error)) => {
            assert_eq!(error.kind(), ErrorKind::ThemeSchema);
            assert!(matches!(error, ThemeSetError::ParseTheme(ParseThemeError::UndefinedSettings)));
        }
        other => panic!("unexpected outcome {:?}", other),
    }
}

#[test]
fn bytes_that_are_no_property_list_fail_as_settings() {
    let bytes = b"this is not a property list at all {{{".to_vec();
    let state = ThemeSet::get_theme(Loading::start("x.tmTheme".to_string()), LoadEvent::Opened(Ok(bytes)));
    match state.finish() {
        Ok(Err(error)) => {
            assert_eq!(error.kind(), ErrorKind::SettingsSyntax);
            assert!(matches!(error, ThemeSetError::ReadSettings(SettingsError::Plist(_))));
        }
        other => panic!("unexpected outcome {:?}", other),
    }
    assert!(matches!(
        ThemeSet::read_plist(Ok(Vec::new())),
        Err(ThemeSetError::ReadSettings(SettingsError::Plist(_)))
    ));
}

#[test]
fn missing_file_fails_as_io_not_found() {
    match load("testdata/themes.tmbundle/Themes/Nowhere.tmTheme") {
        Err(ThemeSetError::Io(cause)) => assert_eq!(cause.kind(), std::io::ErrorKind::NotFound),
        other => panic!("unexpected outcome {:?}", other),
    }
    match ThemeSet::read_file(Err(not_found())) {
        Err(ThemeSetError::Io(cause)) => assert_eq!(cause.kind(), std::io::ErrorKind::NotFound),
        other => panic!("unexpected outcome {:?}", other),
    }
    assert_eq!(ThemeSet::read_file(Ok(vec![1u8, 2u8, 3u8])).unwrap(), vec![1u8, 2u8, 3u8]);
}

#[test]
fn settings_reader_reads_the_document() {
    let tree = read_plist(&document("Amy", "#80000080", "#404080")).unwrap();
    let root = tree.as_dictionary().unwrap();
    assert_eq!(root.get("name").and_then(|n| n.as_string()), Some("Amy"));
    assert_eq!(root.get("settings").and_then(|s| s.as_array()).map(|s| s.len()), Some(2));
    let other = ThemeSet::read_plist(Ok(document("Dawn", "#275FFF4D", "#5A525F"))).unwrap();
    assert_eq!(
        other.as_dictionary().and_then(|d| d.get("name")).and_then(|n| n.as_string()),
        Some("Dawn")
    );
    assert!(read_plist(b"<plist><dict><key>name</key>").is_err());
    let passed = settings_from(Ok(plist::Value::String("x".to_string()))).unwrap();
    assert_eq!(passed.as_string(), Some("x"));
}

#[test]
fn events_out_of_turn_change_nothing() {
    let theme = interpret(read_plist(&document("Amy", "#80000080", "#404080")).unwrap()).unwrap();
    let state = ThemeSet::get_theme(
        Loading::start("a.tmTheme".to_string()),
        LoadEvent::Interpreted(Ok(theme.clone())),
    );
    assert!(matches!(&state, Loading::Opening { path } if path == "a.tmTheme"));
    assert!(matches!(state.finish(), Err(Loading::Opening { .. })));

    let done = Loading::Finished { outcome: Ok(theme.clone()) };
    let still = ThemeSet::get_theme(done, LoadEvent::Opened(Err(not_found())));
    match still.finish() {
        Ok(Ok(kept)) => assert_eq!(kept, theme),
        other => panic!("unexpected outcome {:?}", other),
    }

    let waiting = Loading::Interpreting { settings: plist::Value::Boolean(true) };
    let same = ThemeSet::get_theme(waiting, LoadEvent::Opened(Ok(Vec::new())));
    assert!(matches!(same, Loading::Interpreting { settings: plist::Value::Boolean(true) }));
}

#[test]
fn interpreted_theme_is_handed_on_unchanged() {
    let theme = Theme {
        name: None,
        settings: ThemeSettings {
            foreground: Some(Color { r: 1, g: 2, b: 3, a: 4 }),
            background: None,
            caret: None,
            line_highlight: None,
            selection: None,
            selection_foreground: None,
            gutter: None,
            gutter_foreground: None,
        },
        scopes: Vec::new(),
    };
    let waiting = Loading::Interpreting { settings: plist::Value::Boolean(false) };
    let end = ThemeSet::get_theme(waiting, LoadEvent::Interpreted(Ok(theme.clone())));
    assert_eq!(end.finish().unwrap().unwrap(), theme);

    let waiting = Loading::Interpreting { settings: plist::Value::Boolean(false) };
    let end = ThemeSet::get_theme(waiting, LoadEvent::Interpreted(Err(ParseThemeError::IncorrectColor)));
    assert!(matches!(
        end.finish(),
        Ok(Err(ThemeSetError::ParseTheme(ParseThemeError::IncorrectColor)))
    ));
}

#[test]
fn every_cause_converts_to_its_own_variant() {
    assert!(matches!(ThemeSetError::from(not_found()), ThemeSetError::Io(_)));
    assert!(matches!(
        ThemeSetError::from(ParseThemeError::DuplicateSettings),
        ThemeSetError::ParseTheme(ParseThemeError::DuplicateSettings)
    ));
    let broken = read_plist(b"nothing").unwrap_err();
    assert!(matches!(ThemeSetError::from(broken), ThemeSetError::ReadSettings(_)));

    assert!(matches!(LoadingError::from(not_found()), LoadingError::Io(_)));
    assert!(matches!(
        LoadingError::from(ParseThemeError::IncorrectSyntax),
        LoadingError::ParseTheme(ParseThemeError::IncorrectSyntax)
    ));
    assert!(matches!(
        LoadingError::from(ParseSyntaxError::EmptyFile),
        LoadingError::ParseSyntax(ParseSyntaxError::EmptyFile)
    ));
    let broken = read_plist(b"nothing").unwrap_err();
    assert!(matches!(LoadingError::from(broken), LoadingError::ReadSettings(_)));
}

#[test]
fn widening_keeps_kind_and_cause() {
    let wide = LoadingError::from(ThemeSetError::WalkDir(WalkFailure::Step(walk_failure())));
    assert_eq!(wide.kind(), ErrorKind::Traversal);
    assert!(matches!(&wide, LoadingError::WalkDir(WalkFailure::Step(e)) if e.depth() == 0));
    assert!(matches!(wide.narrow(), Ok(ThemeSetError::WalkDir(WalkFailure::Step(_)))));

    let wide = LoadingError::from(ThemeSetError::Io(not_found()));
    assert_eq!(wide.kind(), ErrorKind::Io);
    match wide.narrow() {
        Ok(ThemeSetError::Io(cause)) => assert_eq!(cause.kind(), std::io::ErrorKind::NotFound),
        other => panic!("unexpected outcome {:?}", other),
    }

    let wide = LoadingError::from(ThemeSetError::ParseTheme(ParseThemeError::IncorrectColor));
    assert_eq!(wide.kind(), ErrorKind::ThemeSchema);
    assert!(matches!(
        wide.narrow(),
        Ok(ThemeSetError::ParseTheme(ParseThemeError::IncorrectColor))
    ));

    let wide = LoadingError::from(ThemeSetError::ReadSettings(read_plist(b"x").unwrap_err()));
    assert_eq!(wide.kind(), ErrorKind::SettingsSyntax);
    assert!(matches!(wide.narrow(), Ok(ThemeSetError::ReadSettings(_))));

    assert_eq!(LoadingError::BadPath.kind(), ErrorKind::PathValidity);
    assert!(matches!(LoadingError::BadPath.narrow(), Err(LoadingError::BadPath)));
    let syntax = LoadingError::ParseSyntax(ParseSyntaxError::MainMissing);
    assert_eq!(syntax.kind(), ErrorKind::SyntaxDefinition);
    assert!(matches!(
        syntax.narrow(),
        Err(LoadingError::ParseSyntax(ParseSyntaxError::MainMissing))
    ));
    assert_eq!(ThemeSetError::Io(not_found()).kind(), ErrorKind::Io);
    assert_eq!(
        ThemeSetError::WalkDir(WalkFailure::Step(walk_failure())).kind(),
        ErrorKind::Traversal
    );
}

#[test]
fn theme_extension_agrees_with_std_paths() {
    let paths = [
        "a.tmTheme",
        "dir/a.tmTheme",
        "dir.tmTheme/a",
        "dir.tmTheme/a.tmTheme",
        ".tmTheme",
        "dir/.tmTheme",
        "dir/..tmTheme",
        "a.b.tmTheme",
        "a.tmTheme.tmTheme",
        "a.tmtheme",
        "a.tmTheme ",
        "tmTheme",
        "x/tmTheme",
        "",
        "a",
        "..",
        "a/..",
        "/a.tmTheme",
        "/.tmTheme",
        "a.tmThemetmTheme",
        "\u{4e16}\u{754c}.tmTheme",
    ];
    for path in paths.iter() {
        let expected =
            std::path::Path::new(path).extension().map(|e| e == "tmTheme").unwrap_or(false);
        assert_eq!(is_theme_path(path.as_bytes()), expected, "{:?}", path);
    }
}

#[test]
fn root_that_is_no_folder_is_a_traversal_failure() {
    match ThemeSet::discover_theme_paths(vec![file("d/x.tmTheme")]) {
        Err(error) => {
            assert_eq!(error.kind(), ErrorKind::Traversal);
            assert!(matches!(
                &error,
                ThemeSetError::WalkDir(WalkFailure::RootNotFolder { path }) if path == "d/x.tmTheme"
            ));
            let wide = LoadingError::from(error);
            assert_eq!(wide.kind(), ErrorKind::Traversal);
            assert!(matches!(
                wide.narrow(),
                Ok(ThemeSetError::WalkDir(WalkFailure::RootNotFolder { .. }))
            ));
        }
        other => panic!("unexpected outcome {:?}", other),
    }
    assert!(matches!(
        ThemeSet::discover_theme_paths(vec![file("notes.txt")]),
        Err(ThemeSetError::WalkDir(WalkFailure::RootNotFolder { .. }))
    ));
    assert!(matches!(
        ThemeSet::discover_theme_paths(vec![file("notes.txt"), Err(walk_failure())]),
        Err(ThemeSetError::WalkDir(WalkFailure::RootNotFolder { .. }))
    ));
    assert!(matches!(
        ThemeSet::discover_theme_paths(vec![Err(walk_failure()), file("notes.txt")]),
        Err(ThemeSetError::WalkDir(WalkFailure::Step(_)))
    ));
    assert_eq!(
        ThemeSet::discover_theme_paths(vec![dir("x.tmTheme")]).unwrap(),
        Vec::<String>::new()
    );
}

fn dated(date: &str) -> Vec<u8> {
    format!(
        "<?xml version=\"1.0\" encoding=\"UTF-8\"?>\n<plist version=\"1.0\">\n<dict>\n\
         <key>name</key><string>Amy</string>\n<key>made</key>{}\n</dict>\n</plist>\n",
        date
    )
    .into_bytes()
}

#[test]
fn textual_document_with_a_date_is_turned_away() {
    let far = dated("<date>9999-12-31T23:59:59-01:00</date>");
    assert!(matches!(read_plist(&far), Err(SettingsError::DateElement)));
    let near = dated("<date>2001-01-01T00:00:00Z</date>");
    assert!(matches!(read_plist(&near), Err(SettingsError::DateElement)));
    let prefixed = dated("<p:date>9999-12-31T23:59:59-01:00</p:date>");
    assert!(matches!(read_plist(&prefixed), Err(SettingsError::DateElement)));
    let state = ThemeSet::get_theme(Loading::start("x.tmTheme".to_string()), LoadEvent::Opened(Ok(far)));
    match state.finish() {
        Ok(Err(error)) => {
            assert_eq!(error.kind(), ErrorKind::SettingsSyntax);
            assert!(matches!(error, ThemeSetError::ReadSettings(SettingsError::DateElement)));
        }
        other => panic!("unexpected outcome {:?}", other),
    }
}

#[test]
fn the_word_date_alone_is_no_date_element() {
    let plain = dated("<string>constant.other.date, update: date</string>");
    let tree = read_plist(&plain).unwrap();
    assert_eq!(
        tree.as_dictionary().and_then(|d| d.get("made")).and_then(|m| m.as_string()),
        Some("constant.other.date, update: date")
    );
    assert!(!holds_date_tag(b"date"));
    assert!(!holds_date_tag(b"update"));
    assert!(!holds_date_tag(b"<dat"));
    assert!(!holds_date_tag(b"<Date>"));
    assert!(!holds_date_tag(b""));
    assert!(holds_date_tag(b"<date>"));
    assert!(holds_date_tag(b"<date"));
    assert!(holds_date_tag(b"<x:date/>"));
    assert!(holds_date_tag(b"</date>") == false);
    assert!(holds_date_tag(b"abc<date>def"));
}

#[test]
fn binary_documents_pass_the_date_guard() {
    assert!(begins_binary(b"bplist00"));
    assert!(begins_binary(b"bplist00<date>"));
    assert!(!begins_binary(b"bplist0"));
    assert!(!begins_binary(b"bplist01"));
    assert!(!begins_binary(b"xbplist00"));
    assert!(!begins_binary(b""));
    assert!(matches!(read_plist(b"bplist00<date>"), Err(SettingsError::Plist(_))));
}
