use harmonium::assets::Assets;
use harmonium::log;
use harmonium::log::{Level, Log};
use harmonium::offsets::{offset_from_utf16, offset_to_utf16, split_at, text_len};
use harmonium::paths::{file_name, is_absolute, join_path, same_path, with_file_name};
use harmonium::pointer::{evdev_code, parse_extent, Devices, Event, BTN_LEFT, BTN_RIGHT};
use harmonium::start::{dismisses, plan_args, plan_settings};
use harmonium::state::records::{PresetRecord, SettingsRecord};
use harmonium::text;
use harmonium::theme;
use harmonium::theme::{Theme, ThemeMode};

#[test]
fn white_space_is_what_std_takes_it_for() {
    for n in 0..=0x10ffffu32 {
        if let Some(c) = char::from_u32(n) {
            assert_eq!(text::is_whitespace(c), c.is_whitespace(), "{n:x}");
        }
    }
}

#[test]
fn texts_are_trimmed_split_and_joined() {
    for s in ["", "  ", " a b ", "\u{2003}x\u{a0}\n", "a\tb\r\nc"] {
        assert_eq!(text::trim(s), s.trim());
        assert_eq!(text::trim_end(s), s.trim_end());
        assert_eq!(text::split_whitespace(s), s.split_whitespace().collect::<Vec<_>>());
        assert_eq!(text::lines(s), s.lines().collect::<Vec<_>>());
    }
    assert_eq!(text::lines("a\r\nb\n\nc\n"), vec!["a", "b", "", "c"]);
    assert_eq!(text::join(&vec!["a".into(), "b".into()], ", "), "a, b");
    assert_eq!(text::strip_prefix("abc", "ab").as_deref(), Some("c"));
    assert_eq!(text::strip_prefix("abc", "b"), None);
    assert_eq!(text::split_once("a=b=c", '='), Some(("a".to_string(), "b=c".to_string())));
    assert_eq!(text::replace_char("a-b", '-', "::"), "a::b");
    assert_eq!(text::decimal(0), "0");
    assert_eq!(text::decimal(18446744073709551616), "18446744073709551616");
    assert_eq!(text::hex(0xbeef, 8), "0000beef");
    assert_eq!(text::parse_u32("+42"), Some(42));
    assert_eq!(text::parse_u32("4294967295"), Some(u32::MAX));
    assert_eq!(text::parse_u32("4294967296"), None);
    assert_eq!(text::parse_u32(""), None);
    assert_eq!(text::parse_u32("-1"), None);
}

#[test]
fn offsets_count_bytes_and_units() {
    let s = "aä😀z";
    assert_eq!(text_len(s), s.len());
    for (i, (at, _)) in s.char_indices().enumerate() {
        let units: usize = s.chars().take(i).map(|c| c.len_utf16()).sum();
        assert_eq!(offset_to_utf16(s, at), units);
        assert_eq!(offset_from_utf16(s, units), at);
    }
    assert_eq!(split_at(s, 3), ("aä".to_string(), "😀z".to_string()));
}

#[test]
fn paths_are_compared_by_their_parts() {
    assert!(same_path("/a/b/", "/a//./b"));
    assert!(!same_path("/a/b", "a/b"));
    assert!(!same_path("/a/../b", "/b"));
    assert_eq!(join_path("/a", "b"), "/a/b");
    assert_eq!(join_path("/a/", "b"), "/a/b");
    assert_eq!(join_path("/a", "/b"), "/b");
    assert_eq!(file_name("/a/b/").as_deref(), Some("b"));
    assert_eq!(file_name("/"), None);
    assert_eq!(file_name("/a/.."), None);
    assert!(is_absolute("/x") && !is_absolute("x"));
    assert_eq!(with_file_name("/a/b.json", "c"), "/a/c");
}

#[test]
fn the_log_keeps_the_newest_lines() {
    let mut l = Log::new();
    assert_eq!(log::info(&mut l, 3661, "hi".into()), "[harmonium] hi");
    log::error(&mut l, 86399, "bad".into());
    let entries = log::entries(&l);
    assert_eq!(entries[0].time, "01:01:01");
    assert_eq!(entries[1].time, "23:59:59");
    assert_eq!(entries[1].level, Level::Error);
    let version = log::version(&l);
    for i in 0..500 {
        log::info(&mut l, 0, format!("{i}"));
    }
    let entries = log::entries(&l);
    assert_eq!(entries.len(), 500);
    assert_eq!(entries[0].message, "0");
    assert_eq!(log::version(&l), version + 500);
    log::clear(&mut l);
    assert!(log::entries(&l).is_empty());
    assert_eq!(log::version(&l), version + 501);
    assert_eq!(log::timestamp(86400), "00:00:00");
}

#[test]
fn fonts_and_colors_go_by_the_settings() {
    let mut t = Theme::new();
    assert_eq!(theme::mode(&t), ThemeMode::Light);
    theme::set_mode(&mut t, ThemeMode::Dark);
    assert_eq!(theme::mode(&t), ThemeMode::Dark);
    assert_eq!(theme::ui_font(&t, &None), "DejaVu Sans");
    theme::set_fonts(&mut t, " Inter ", "  ");
    assert_eq!(theme::ui_font(&t, &None), "Inter");
    assert_eq!(theme::ui_font(&t, &Some("Env".into())), "Env");
    assert_eq!(theme::terminal_font(&t, &Some(" ".into())), "DejaVu Sans Mono");
    assert_eq!(theme::bg(ThemeMode::Dark), 0x21252b);
    assert_eq!(theme::bg(ThemeMode::Light), 0xf2f3f5);
}

#[test]
fn the_command_line_can_ask_for_a_plan() {
    let args = |words: &[&str]| words.iter().map(|s| s.to_string()).collect::<Vec<_>>();
    let asked = plan_args(&args(&["harmonium", "plan", "/repo", "fix", "it"])).unwrap();
    assert_eq!((asked.repo.as_str(), asked.task.as_str()), ("/repo", "fix it"));
    assert!(plan_args(&args(&["harmonium", "plan", "/repo"])).is_none());
    assert!(plan_args(&args(&["harmonium", "show", "/repo", "x"])).is_none());

    let mut settings = SettingsRecord::fresh("agent", false);
    settings.presets = vec![PresetRecord {
        name: "p".into(),
        command: "wrap".into(),
        resume_command: None,
        env: "A=1".into(),
    }];
    settings.planner_preset = Some("p".into());
    let planner = plan_settings("agent", &settings, "/repo", &Vec::new());
    assert_eq!(planner.preset_argv, vec!["wrap", "-p", "--model", "haiku"]);
    assert!(planner.env.is_empty());
    assert!(dismisses("escape") && dismisses("enter") && !dismisses("a"));
}

#[test]
fn icons_are_found_by_their_path() {
    assert!(Assets.has("icons/pencil.svg"));
    assert!(!Assets.has("icons/none.svg"));
    assert_eq!(Assets.list("icons/"), vec!["icons/pencil.svg"]);
    assert_eq!(Assets.list("fonts/"), Vec::<String>::new());
}

#[test]
fn pointer_commands_become_events() {
    let args = |words: &[&str]| words.iter().map(|s| s.to_string()).collect::<Vec<_>>();
    let mut d = Devices { keyboard: false, time: 0 };
    let events = d.exec("click", &args(&["10", "20", "right"]));
    assert_eq!(d.time, 20);
    assert_eq!(events.len(), 6);
    assert!(matches!(events[0], Event::Motion { time: 20, x: 10, y: 20 }));
    assert!(matches!(events[1], Event::Frame));
    assert!(matches!(events[2], Event::Button { time: 25, button: BTN_RIGHT, pressed: true }));
    assert!(matches!(events[4], Event::Button { time: 35, button: BTN_RIGHT, pressed: false }));
    let events = d.exec("press", &args(&["x"]));
    assert!(matches!(events[0], Event::Motion { time: 40, x: 0, y: 0 }));
    assert!(matches!(events[2], Event::Button { time: 45, button: BTN_LEFT, pressed: true }));
    assert_eq!(d.exec("move", &args(&["1", "2"])).len(), 2);
    let events = d.exec("scroll", &args(&["1", "2", "-15"]));
    assert!(matches!(&events[2], Event::Wheel { amount: Some(a), .. } if a == "-15"));
    let events = d.exec("jump", &Vec::new());
    assert!(matches!(&events[2], Event::Unknown(c) if c == "jump"));
    assert!(matches!(d.exec("key", &args(&["enter"]))[0], Event::KeyUnavailable));
    d.keyboard = true;
    let events = d.exec("key", &args(&["enter"]));
    assert!(matches!(events[0], Event::Key { code: 28, pressed: true, .. }));
    assert!(matches!(events[1], Event::Key { code: 28, pressed: false, .. }));
    assert_eq!(evdev_code("77"), Some(77));
    assert_eq!(evdev_code("nope"), None);
    assert_eq!(parse_extent("1280x820"), Some((1280, 820)));
    assert_eq!(parse_extent("1280"), None);
    assert_eq!(parse_extent("ax1"), None);
}
