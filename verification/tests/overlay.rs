use text_editor::editor::overlay::mention::{MentionKind, MentionOverlay, Mentionable};
use text_editor::editor::overlay::slash_command::{
    default_commands, BlockStyle, SlashAction, SlashCommand, SlashCommandOverlay,
};
use text_editor::editor::overlay::OverlayManager;
use text_editor::editor::overlay::slash_command::command_label_string;
use text_editor::editor::view::Rect;

fn names(o: &SlashCommandOverlay) -> Vec<String> {
    o.filtered().iter().map(|c| c.name.clone()).collect()
}

fn person(name: &str, kind: MentionKind) -> Mentionable {
    Mentionable {
        id: name.to_lowercase(),
        display_name: name.to_string(),
        kind,
        description: None,
    }
}

#[test]
fn default_commands_in_menu_order() {
    let cmds = default_commands();
    let got: Vec<&str> = cmds.iter().map(|c| c.name.as_str()).collect();
    assert_eq!(
        got,
        vec!["h1", "h2", "h3", "bullet", "numbered", "todo", "code", "quote", "divider", "table"]
    );
    assert_eq!(cmds[0].description, "Heading 1");
    assert!(matches!(cmds[1].action, SlashAction::SetBlockStyle(BlockStyle::Heading(2))));
    assert!(matches!(cmds[8].action, SlashAction::SetBlockStyle(BlockStyle::HorizontalRule)));
    match &cmds[9].action {
        SlashAction::InsertTemplate(t) => assert_eq!(t, "| Col1 | Col2 |\n|------|------|\n| | |\n"),
        _ => panic!("table inserts a template"),
    }
}

#[test]
fn empty_filter_offers_every_command() {
    let o = SlashCommandOverlay::new(default_commands());
    assert_eq!(names(&o).len(), 10);
    assert_eq!(o.selected(), 0);
    assert_eq!(o.selected_command().unwrap().name, "h1");
}

#[test]
fn filter_keeps_commands_by_prefix_ignoring_case() {
    let mut o = SlashCommandOverlay::new(default_commands());
    o.set_filter("H".to_string());
    assert_eq!(names(&o), vec!["h1", "h2", "h3"]);
    o.set_filter("qu".to_string());
    assert_eq!(names(&o), vec!["quote"]);
    o.set_filter("zzz".to_string());
    assert!(names(&o).is_empty());
    assert!(o.selected_command().is_none());
}

#[test]
fn selection_wraps_both_ways() {
    let mut o = SlashCommandOverlay::new(default_commands());
    o.set_filter("h".to_string());
    o.select_prev();
    assert_eq!(o.selected(), 2);
    assert_eq!(o.selected_command().unwrap().name, "h3");
    o.select_next();
    assert_eq!(o.selected(), 0);
    o.select_next();
    o.select_next();
    assert_eq!(o.selected_command().unwrap().name, "h3");
}

#[test]
fn next_then_prev_returns_to_the_same_entry() {
    let mut o = SlashCommandOverlay::new(default_commands());
    o.select_next();
    o.select_next();
    let at = o.selected();
    o.select_next();
    o.select_prev();
    assert_eq!(o.selected(), at);
}

#[test]
fn setting_the_filter_resets_the_selection() {
    let mut o = SlashCommandOverlay::new(default_commands());
    o.select_next();
    o.select_next();
    o.set_filter("".to_string());
    assert_eq!(o.selected(), 0);
}

#[test]
fn moving_in_an_empty_list_stays_put() {
    let mut o = SlashCommandOverlay::new(Vec::new());
    o.select_next();
    o.select_prev();
    assert_eq!(o.selected(), 0);
    assert!(o.selected_command().is_none());
}

#[test]
fn custom_commands_are_offered_too() {
    let mut cmds = default_commands();
    cmds.push(SlashCommand::new(
        "hello".to_string(),
        "Greeting".to_string(),
        "!".to_string(),
        SlashAction::Async("greet".to_string()),
    ));
    let mut o = SlashCommandOverlay::new(cmds);
    o.set_filter("he".to_string());
    assert_eq!(names(&o), vec!["hello"]);
}

#[test]
fn mentions_filter_by_display_name() {
    let items = vec![
        person("Alice", MentionKind::User),
        person("Albert", MentionKind::AiAgent),
        person("Bob", MentionKind::Service),
    ];
    let mut o = MentionOverlay::new(items);
    assert_eq!(o.filtered().len(), 3);
    o.set_filter("AL".to_string());
    let got: Vec<&str> = o.filtered().iter().map(|m| m.display_name.as_str()).collect();
    assert_eq!(got, vec!["Alice", "Albert"]);
    o.select_prev();
    assert_eq!(o.selected_item().unwrap().display_name, "Albert");
    assert_eq!(o.selected_item().unwrap().kind, MentionKind::AiAgent);
    o.select_next();
    assert_eq!(o.selected_item().unwrap().id, "alice");
    o.set_filter("x".to_string());
    assert!(o.selected_item().is_none());
}

#[test]
fn manager_starts_closed() {
    let mut m = OverlayManager::new();
    assert!(!m.has_active());
    assert!(m.active().is_none());
    m.close();
    assert!(!m.has_active());
}

#[test]
fn open_popups_take_input() {
    assert!(SlashCommandOverlay::new(default_commands()).is_active());
    assert!(MentionOverlay::new(Vec::new()).is_active());
}

#[test]
fn command_popup_rows_and_place() {
    let mut o = SlashCommandOverlay::new(default_commands());
    o.set_filter("h".to_string());
    o.select_next();
    let (area, rows) = o.popup(Rect { x: 2, y: 3, width: 80, height: 20 });
    assert_eq!(area, Rect { x: 2, y: 3, width: 36, height: 5 });
    assert_eq!(rows.len(), 3);
    assert_eq!(rows[0].text, " H1 h1           Heading 1");
    assert!(!rows[0].highlighted);
    assert!(rows[1].highlighted);
    assert!(!rows[2].highlighted);
}

#[test]
fn popup_is_cut_to_a_small_area() {
    let o = SlashCommandOverlay::new(default_commands());
    let (area, rows) = o.popup(Rect { x: 0, y: 0, width: 20, height: 4 });
    assert_eq!(area, Rect { x: 0, y: 0, width: 20, height: 4 });
    assert_eq!(rows.len(), 10);
    assert_eq!(rows[3].text, " • bullet       Bullet list");
}

#[test]
fn long_command_names_are_not_cut() {
    let c = SlashCommand::new(
        "averyveryverylongname".to_string(),
        "d".to_string(),
        "i".to_string(),
        SlashAction::Custom,
    );
    assert_eq!(command_label_string(&c), " i averyveryverylongname d");
}

#[test]
fn mention_popup_rows() {
    let o = MentionOverlay::new(vec![
        person("Ann", MentionKind::User),
        person("Bot", MentionKind::AiAgent),
        person("Api", MentionKind::Service),
    ]);
    let (area, rows) = o.popup(Rect { x: 1, y: 1, width: 50, height: 50 });
    assert_eq!(area, Rect { x: 1, y: 1, width: 36, height: 5 });
    assert_eq!(rows[0].text, " 👤 Ann");
    assert_eq!(rows[1].text, " 🤖 Bot");
    assert_eq!(rows[2].text, " ⚙ Api");
    assert!(rows[0].highlighted);
}

#[test]
fn default_manager_is_a_new_one() {
    let m = OverlayManager::default();
    assert!(!m.has_active());
}
