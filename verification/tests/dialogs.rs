use harmonium::dialogs::{
    clamp_index, ellipsize, search_message, FirstFocus, NewAgentDialog, SearchDialog,
    SearchOutcome, SettingsDialog,
};
use harmonium::panel::{Button, Piece, Slot};
use harmonium::state::records::{PresetRecord, SettingsRecord, WorkspaceMode};
use harmonium::theme::ThemeMode;

/// A stand-in for the agent CLI.
const AGENT: &str = "agent";

#[test]
fn dialogs_chip_labels_are_shortened_not_wide() {
    assert_eq!(ellipsize("short", 10), "short");
    assert_eq!(ellipsize("exactly-10", 10), "exactly-10");
    assert_eq!(ellipsize("a-very-long-preset-name", 10), "a-very-lo…");
    // Multi-byte input must not be split mid-character.
    assert_eq!(ellipsize("äöüßäöüßäöüß", 5), "äöüß…");
    // A trailing space before the ellipsis reads as a typo.
    assert_eq!(ellipsize("word morewords", 6), "word…");
}

fn settings() -> SettingsRecord {
    let mut s = SettingsRecord::fresh(AGENT, false);
    s.presets = vec![
        PresetRecord { name: "one".into(), command: "run".into(), resume_command: None, env: String::new() },
        PresetRecord { name: "two".into(), command: "wrap --".into(), resume_command: None, env: "A=1".into() },
    ];
    s.last_preset = 7;
    s.planner_preset = Some("two".into());
    s
}

#[test]
fn the_new_agent_dialog_opens_on_the_last_preset() {
    let mut d = NewAgentDialog::new("/repo".into(), Some("g".into()), &settings());
    assert_eq!(d.preset, 1);
    assert_eq!(d.workspace_mode, WorkspaceMode::Auto);
    let chips = d.preset_chips();
    assert_eq!((chips[0].label.as_str(), chips[0].selected), ("one", false));
    assert_eq!((chips[1].label.as_str(), chips[1].selected), ("two", true));
    let modes: Vec<bool> = d.mode_chips().iter().map(|c| c.selected).collect();
    assert_eq!(modes, vec![true, false, false]);
    assert_eq!(NewAgentDialog::task("  do it \n"), "do it");

    let pieces = d.pieces();
    assert!(matches!(&pieces[0], Piece::Title(t) if t == "New agent — describe the task"));
    assert!(matches!(&pieces[1], Piece::Field(_, Slot::Task)));
    assert!(matches!(&pieces[4], Piece::Buttons(b) if b == &vec![Button::Cancel, Button::Spawn]));
    d.error = Some("limit".into());
    d.planning = true;
    let pieces = d.pieces();
    assert!(matches!(&pieces[4], Piece::Error(e) if e == "limit"));
    assert!(matches!(&pieces[5], Piece::Busy(t) if t == "Planning workspace with LLM…"));
    assert_eq!(pieces.len(), 6);
}

#[test]
fn the_search_dialog_says_what_came_of_a_step() {
    let found = |wrapped| SearchOutcome::Found { wrapped };
    assert_eq!(search_message(found(false), true, "q"), None);
    assert_eq!(search_message(found(true), true, "q").unwrap(), "Wrapped to the top");
    assert_eq!(search_message(found(true), false, "q").unwrap(), "Wrapped to the bottom");
    assert_eq!(search_message(SearchOutcome::NoMatch, true, "").as_deref(), None);
    assert_eq!(search_message(SearchOutcome::NoMatch, true, "q").unwrap(), "No matches for `q`");
    assert!(search_message(SearchOutcome::EndOfBuffer, true, "q").unwrap().contains("below"));
    assert!(search_message(SearchOutcome::EndOfBuffer, false, "q").unwrap().contains("above"));
    assert_eq!(search_message(SearchOutcome::Failed("bad regex".into()), true, "q").unwrap(), "bad regex");
    let mut d = SearchDialog::new();
    d.status = Some("Wrapped to the top".into());
    let pieces = d.pieces();
    assert!(matches!(&pieces[2], Piece::Chips(_, c) if !c[0].selected && c[1].selected));
    assert!(matches!(&pieces[3], Piece::Note(t) if t == "Wrapped to the top"));
    assert!(matches!(&pieces[4], Piece::Buttons(b) if b.last().unwrap().label() == "Next"));
}

#[test]
fn the_settings_dialog_reads_its_rows() {
    let mut d = SettingsDialog::new(&settings());
    assert_eq!(d.planner_preset_row, Some(1));
    assert_eq!(d.first_focus(), FirstFocus::FirstPreset);
    // Unchanged settings come out as they went in.
    let v = d.values();
    assert_eq!(v.presets.len(), 2);
    assert_eq!(v.planner_preset.as_deref(), Some("two"));
    // A blank row is dropped, and one without a name is named by its command.
    d.preset_inputs[0].name = " ".into();
    d.add_preset_row();
    let v = d.values();
    assert_eq!(v.presets[0].name, "run");
    assert_eq!(v.presets.len(), 2);
    let (first, rest) = d.planner_chips(AGENT);
    assert_eq!(first.label, format!("Default ({AGENT})"));
    assert!(!first.selected);
    assert_eq!(rest.len(), 2);
    assert_eq!((rest[1].0, rest[1].1.selected), (1, true));
    d.remove_preset_row(9);
    d.remove_preset_row(1);
    assert_eq!(d.preset_inputs.len(), 2);
    assert!(!d.model_unused());
    d.planner_command = "mine".into();
    assert!(d.model_unused());

    let pieces = d.pieces(ThemeMode::Dark, AGENT);
    assert!(matches!(&pieces[0], Piece::Title(t) if t == "Settings"));
    assert!(matches!(&pieces[2], Piece::Chips(l, c) if l.label() == "Theme" && c[1].selected));
    assert!(pieces.iter().any(|p| matches!(p, Piece::Note(t) if t == "The model is unused while a command is set.")));
    let rows = pieces.iter().filter(|p| matches!(p, Piece::RemovePreset(_))).count();
    assert_eq!(rows, 2);
    assert!(matches!(pieces.last(), Some(Piece::Buttons(b)) if b == &vec![Button::Cancel, Button::Save]));
    d.preset_inputs.clear();
    assert_eq!(d.first_focus(), FirstFocus::Panel);
    assert_eq!(clamp_index(3, 0), 0);
    assert_eq!(clamp_index(3, 2), 1);
}
