use skills::pill::{tag_pills, TagPiece};
use skills::cards::{checkbox_marker, cols_for as card_cols_for};
use skills::choice::{ChoiceEvent, ChoiceFocus, Key};
use skills::color::{choose_color, pill_fill, Color, Theme};
use skills::group::{badge_names, badge_budget, card_height, color, count_label, coverage_mark, pack_badges, reserve, Ask, Kind};
use skills::icons::{git, local, preset_caps, scope, short_rev, source, source_icon, Icons, PillCaps};
use skills::layout::{cols_for, frame_style, open_bottom, FrameStyle};
use skills::meta::Source;
use skills::panel::{
    edit_event, filter_after, filter_key, panel_areas, search_key, FilterKey, PanelKey,
    PanelLayout, Rect, SearchEvent,
};
use skills::settings::{
    wheel, Config, InteractionSettings, LayoutMetrics, LayoutScope, RuntimeSettings,
    SearchConfig, SessionSettings, UiConfig, UiLayout, WheelKind,
};
use skills::highlight::highlight_pieces;
use skills::skill::{health_marker, compact_layout, footer_source_width, identity_layout, CompactLayout, display_name, status_marker, EntryState, SkillPresentation, SkillRenderState, SkillStatus, Tone};
use skills::name_choices::{name_key, NameChoices, NameKey};
use skills::members::{edit_members, toggle_adds};
use skills::preset_keys::{
    after_panel_key, color_error, finish_color, prompt_answer, presets_key, recolor, ColorOutcome,
    PresetCommand, PresetQuestion, PresetRecord,
};
use skills::name_choices::{candidate_row, choices_frame, dialog_title, keep_none_row};
use skills::tag_keys::{tags_key, Question, TagCommand};
use skills::summary::{plain_summary, summary_lines, wrap_summary};
use skills::prompt::{color_rows, color_text, prompt_color};
use skills::layout::{pane_plan, split_panes};
use skills::panel::{dialog_rect, footer_buttons, position_text, prompt_rect};

#[test]
fn github_icons_require_the_actual_host() {
    for url in [
        "https://github.com/example/tools",
        "git@github.com:example/tools.git",
        "ssh://git@github.com:22/example/tools",
    ] {
        assert_eq!(git(Icons::Nerd, url), "󰊤");
        assert_eq!(git(Icons::Text, url), "github");
    }
    for url in [
        "https://github.com.example.org/tools",
        "https://example.org/github.com/tools",
        "https://github.com@example.org/tools",
        "/tmp/github.com/tools",
        "git@example.org:tools",
    ] {
        assert_eq!(git(Icons::Nerd, url), "󰊢");
        assert_eq!(git(Icons::Text, url), "git");
    }
}

#[test]
fn archive_source_uses_archive_identity_even_when_hosted_on_github() {
    let archive = Source::Archive {
        url: "https://github.com/example/tools/releases/download/v1/skills.zip".into(),
        subpath: Some("bundle/review".into()),
        revision: Some("sha256:0123456789abcdef".into()),
    };
    assert_eq!(source_icon(Icons::Text, &archive), "archive");
    assert_ne!(
        source_icon(Icons::Nerd, &archive),
        git(Icons::Nerd, archive.url().unwrap())
    );
    let text = source(Icons::Text, &archive);
    assert!(text.starts_with("archive https://github.com/"));
    assert!(text.contains(" · bundle/review"));
    assert!(text.ends_with("(0123456789ab)"));
    assert!(!text.contains("branch"));
}

#[test]
fn git_and_local_sources_describe_branch_and_path() {
    let git_source = Source::Git {
        url: "https://example.org/tools.git".into(),
        branch: Some("dev".into()),
        subpath: None,
        revision: Some("0123456789abcdef0123".into()),
    };
    assert_eq!(
        source(Icons::Text, &git_source),
        "git https://example.org/tools.git · branch dev (0123456789ab)"
    );
    assert_eq!(source(Icons::Text, &Source::Local { path: Some("~/skills/a".into()) }), "local ~/skills/a");
    assert_eq!(source(Icons::Nerd, &Source::Local { path: None }), local(Icons::Nerd));
    assert_eq!(short_rev("abc"), "abc");
    assert_eq!(preset_caps(Icons::Text), ("/", "/"));
    assert_eq!(scope(Icons::Text, true, true), "");
    assert_eq!(scope(Icons::Nerd, false, true), "󰊢 ");
}

#[test]
fn navigation_never_applies_from_list_and_preserves_cycle() {
    let mut f = ChoiceFocus::List;
    assert_eq!(f.key(Key::Enter, true), None);
    assert_eq!(f.key(Key::Down, false), None);
    assert_eq!(f.key(Key::Down, true), Some(ChoiceEvent::Moved));
    assert_eq!(f, ChoiceFocus::Apply);
    assert_eq!(f.key(Key::Enter, false), Some(ChoiceEvent::Apply));
    f.key(Key::Right, false);
    assert_eq!(f, ChoiceFocus::Cancel);
    assert_eq!(f.key(Key::Char(' '), false), Some(ChoiceEvent::Cancel));
    f.key(Key::Up, false);
    assert_eq!(f, ChoiceFocus::List);
    for expected in [ChoiceFocus::Apply, ChoiceFocus::Cancel, ChoiceFocus::List] {
        f.key(Key::Tab, false);
        assert_eq!(f, expected);
    }
    for expected in [ChoiceFocus::Cancel, ChoiceFocus::Apply, ChoiceFocus::List] {
        f.key(Key::BackTab, false);
        assert_eq!(f, expected);
    }
}

#[test]
fn group_colours_share_the_theme_default() {
    let theme = Theme::default();
    assert_eq!(color(None, &theme), theme.tag);
    assert_eq!(color(Some("not a colour"), &theme), theme.tag);
    assert_eq!(color(Some("#b87e54"), &theme), Color::Rgb(184, 126, 84));
    assert_eq!(color(Some("blue"), &theme), Color::Blue);
}

#[test]
fn group_card_height_tracks_its_visible_description() {
    for (description, rows) in [
        (None, 1),
        (Some(""), 1),
        (Some(" \n "), 1),
        (Some("**Useful** tools"), 2),
    ] {
        assert_eq!(usize::from(card_height(description)), rows + 2);
    }
    assert_eq!(Kind::Tag.marker(Icons::Nerd), "●");
    assert_eq!(Kind::Preset.marker(Icons::Text), "/");
}

#[test]
fn escape_and_input_events_do_not_own_page_navigation() {
    assert_eq!(search_key(false, Key::Esc, false), (PanelKey::ClearInput, SearchEvent::Changed));
    assert_eq!(search_key(false, Key::Esc, true).1, SearchEvent::Escape);
    assert_eq!(search_key(false, Key::Enter, true).1, SearchEvent::Results);
    assert_eq!(search_key(false, Key::Up, true).1, SearchEvent::Up);
    assert_eq!(search_key(false, Key::Char('x'), true).0, PanelKey::Edit);
    assert_eq!(edit_event(true, 0, 1), SearchEvent::Changed);
    assert_eq!(edit_event(false, 0, 1), SearchEvent::CursorMoved);
    assert_eq!(edit_event(false, 1, 1), SearchEvent::Ignored);
    assert_eq!(search_key(true, Key::Up, true), (PanelKey::MoveCompletion(-1), SearchEvent::Consumed));
    assert_eq!(search_key(true, Key::Enter, true), (PanelKey::AcceptCompletion, SearchEvent::Accepted));
    assert_eq!(search_key(true, Key::Esc, false), (PanelKey::CloseCompletion, SearchEvent::Consumed));
}

#[test]
fn both_frames_keep_input_header_and_results_bounded_and_disjoint() {
    for layout in [PanelLayout::Separate, PanelLayout::Unified] {
        for width in [0, 1, 2, 12, 80] {
            for height in 0..12 {
                let area = Rect::new(2, 2, width, height);
                let regions = panel_areas(layout, area, 3);
                for rect in [regions.input, regions.header, regions.results] {
                    assert!(rect.x >= area.x && rect.y >= area.y);
                    assert!(rect.right() <= area.right() && rect.bottom() <= area.bottom());
                }
                assert!(regions.input.bottom() <= regions.header.y);
                assert!(regions.header.bottom() <= regions.results.y);
                if height >= 5 && width >= 3 {
                    assert!(regions.results.height > 0);
                }
            }
        }
    }
}

#[test]
fn panel_frames_place_input_header_and_footer() {
    let separate = panel_areas(PanelLayout::Separate, Rect::new(0, 0, 20, 10), 2);
    assert_eq!(separate.input, Rect::new(1, 1, 18, 1));
    assert_eq!(separate.header, Rect::new(1, 4, 18, 2));
    assert_eq!(separate.results, Rect::new(1, 6, 18, 3));
    assert_eq!(separate.footer, Rect::new(1, 9, 18, 1));
    let unified = panel_areas(PanelLayout::Unified, Rect::new(0, 0, 20, 10), 0);
    assert_eq!(unified.input, Rect::new(1, 1, 18, 1));
    assert_eq!(unified.results, Rect::new(1, 3, 18, 6));
}

fn press(editing: &mut bool, query: &mut String, key: Key) -> bool {
    match filter_key(*editing, key, true, query.is_empty()) {
        FilterKey::StartEditing => {
            *editing = true;
            true
        }
        FilterKey::ClearQuery => {
            query.clear();
            true
        }
        FilterKey::Pass => false,
        FilterKey::Panel(key) => {
            let (action, event) = search_key(false, key, query.is_empty());
            if action == PanelKey::ClearInput {
                query.clear();
            }
            let (still, consumed) = filter_after(event);
            *editing = still;
            consumed
        }
    }
}

#[test]
fn plain_filter_has_no_completion_and_returns_empty_escape_and_up_to_page() {
    let mut editing = false;
    let mut query = String::new();
    assert!(press(&mut editing, &mut query, Key::Char('/')));
    query.push_str("tag:work");
    assert_eq!(query, "tag:work");
    assert!(!press(&mut editing, &mut query, Key::Up));
    assert!(editing);
    assert!(press(&mut editing, &mut query, Key::Esc));
    assert!(query.is_empty());
    assert!(editing);
    assert!(press(&mut editing, &mut query, Key::Esc));
    assert!(!editing);
    press(&mut editing, &mut query, Key::Char('/'));
    query.push_str("文档");
    assert!(press(&mut editing, &mut query, Key::Down));
    assert!(!editing);
    assert_eq!(query, "文档");
}

#[test]
fn outside_editing_q_clears_and_other_keys_pass() {
    assert_eq!(filter_key(false, Key::Char('q'), true, false), FilterKey::ClearQuery);
    assert_eq!(filter_key(false, Key::Char('q'), false, false), FilterKey::Pass);
    assert_eq!(filter_key(false, Key::Char('q'), true, true), FilterKey::Pass);
    assert_eq!(filter_key(true, Key::Char('q'), true, true), FilterKey::Panel(Key::Char('q')));
}

#[test]
fn file_values_apply_to_every_scope_without_session_overrides() {
    let config = Config {
        ui: UiConfig { layout: UiLayout::List, icons: Icons::Text, pill_caps: PillCaps::Block },
        search: SearchConfig { fuzzy: false, prefix: false, ..SearchConfig::default() },
        tags_enabled: false,
    };
    let settings = RuntimeSettings::new(&config);
    for scope in [
        LayoutScope::Library,
        LayoutScope::Tags,
        LayoutScope::Presets,
        LayoutScope::Agents,
        LayoutScope::Repositories,
    ] {
        assert_eq!(settings.layout_for(scope), UiLayout::List);
    }
    assert_eq!(settings.ui.icons, config.ui.icons);
    assert_eq!(settings.ui.pill_caps, config.ui.pill_caps);
    assert_eq!(settings.search, config.search);
    assert!(!settings.tags_enabled);
}

#[test]
fn session_override_is_scoped_and_a_new_session_resumes_file_default() {
    let config = Config::default();
    let mut session = SessionSettings::default();
    session.set_layout(LayoutScope::Tags, UiLayout::Compact);
    let mut settings = RuntimeSettings::resolve(&config, &session);
    assert_eq!(settings.layout_for(LayoutScope::Tags), UiLayout::Compact);
    assert_eq!(settings.layout_for(LayoutScope::Library), UiLayout::Grid);
    assert_eq!(settings.layout_for(LayoutScope::Presets), UiLayout::Grid);
    assert_eq!(settings.layout_for(LayoutScope::Agents), UiLayout::Grid);
    assert_eq!(settings.layout_for(LayoutScope::Repositories), UiLayout::Grid);
    assert_eq!(config.ui.layout, UiLayout::Grid);
    session = SessionSettings::default();
    settings.reload(&config, &session);
    assert_eq!(settings.layout_for(LayoutScope::Tags), UiLayout::Grid);
}

#[test]
fn reload_updates_file_settings_and_keeps_only_explicit_overrides() {
    let mut config = Config::default();
    let mut session = SessionSettings::default();
    // An explicit choice equal to the initial default still survives reload.
    session.set_layout(LayoutScope::Library, UiLayout::Grid);
    session.set_layout(LayoutScope::Agents, UiLayout::Compact);
    let mut settings = RuntimeSettings::resolve(&config, &session);
    config.ui.layout = UiLayout::List;
    config.ui.icons = Icons::Text;
    config.search.dictionary = false;
    settings.reload(&config, &session);
    assert_eq!(settings.layout_for(LayoutScope::Library), UiLayout::Grid);
    assert_eq!(settings.layout_for(LayoutScope::Agents), UiLayout::Compact);
    assert_eq!(settings.layout_for(LayoutScope::Tags), UiLayout::List);
    assert_eq!(settings.layout_for(LayoutScope::Presets), UiLayout::List);
    assert_eq!(settings.layout_for(LayoutScope::Repositories), UiLayout::List);
    assert_eq!(settings.ui.icons, Icons::Text);
    assert!(!settings.search.dictionary);
    // A new session sees the current file, not the previous session's choices.
    let reopened = RuntimeSettings::new(&config);
    assert_eq!(reopened.layout_for(LayoutScope::Library), UiLayout::List);
    assert_eq!(reopened.layout_for(LayoutScope::Agents), UiLayout::List);
}

#[test]
fn application_defaults_and_scope_slots() {
    let layout = LayoutMetrics::default();
    assert_eq!(layout.min_card_width, 40);
    assert_eq!(layout.card_height, 6);
    let interaction = InteractionSettings::default();
    assert_eq!(interaction.wheel_rows, 3);
    assert_eq!(interaction.toast_lifetime_ms, 5000);
    assert_eq!(wheel(WheelKind::ScrollUp, &interaction), Some(-3));
    assert_eq!(wheel(WheelKind::ScrollDown, &interaction), Some(3));
    assert_eq!(wheel(WheelKind::Other, &interaction), None);
    assert_eq!(LayoutScope::Repositories.index(), 4);
    assert_eq!(cols_for(100, &layout), 2);
    assert_eq!(cols_for(10, &layout), 1);
    assert_eq!(card_cols_for(120), 3);
    assert_eq!(card_cols_for(0), 1);
    assert!(open_bottom(5, &layout));
    assert!(!open_bottom(6, &layout));
    assert_eq!(frame_style(true, true), FrameStyle::Focused);
    assert_eq!(frame_style(true, false), FrameStyle::Selected);
    assert_eq!(frame_style(false, true), FrameStyle::Plain);
    assert_eq!(checkbox_marker(true), "[✓] ");
}

#[test]
fn label_fills_are_always_opaque_rgb() {
    let palette = skills::color::default_pill_palette();
    assert_eq!(pill_fill(Color::Rgb(1, 2, 3), &palette), Color::Rgb(1, 2, 3));
    assert_eq!(pill_fill(Color::Black, &palette), Color::Rgb(32, 36, 44));
    assert_eq!(pill_fill(Color::Reset, &palette), Color::Rgb(208, 212, 220));
    assert_eq!(pill_fill(Color::Indexed(4), &palette), Color::Rgb(112, 160, 224));
    assert_eq!(pill_fill(Color::Indexed(232), &palette), Color::Rgb(8, 8, 8));
    assert_eq!(pill_fill(Color::Indexed(255), &palette), Color::Rgb(238, 238, 238));
    assert_eq!(pill_fill(Color::Indexed(16), &palette), Color::Rgb(0, 0, 0));
    assert_eq!(pill_fill(Color::Indexed(196), &palette), Color::Rgb(255, 0, 0));
    for i in 0..=255u8 {
        assert!(matches!(pill_fill(Color::Indexed(i), &palette), Color::Rgb(..)));
    }
    assert_eq!(choose_color(None, Color::Red), Color::Red);
    assert_eq!(choose_color(Some(Color::Blue), Color::Red), Color::Blue);
}

#[test]
fn badges_pack_within_the_width_and_count_the_rest() {
    assert_eq!(coverage_mark(0, 0), "◦ ");
    assert_eq!(coverage_mark(28, 28), "✓ ");
    assert_eq!(coverage_mark(0, 28), "◌ ");
    assert_eq!(coverage_mark(1, 28), "◐ ");
    assert_eq!(reserve(0), 0);
    assert_eq!(reserve(9), 3);
    assert_eq!(reserve(12), 4);
    assert_eq!(reserve(usize::MAX), 22);
    // Three badges of width 5: two fit in 14 columns with room for " +1".
    assert_eq!(pack_badges(&[5, 5, 5], 14, usize::MAX), (2, 11));
    assert_eq!(pack_badges(&[5, 5, 5], 100, usize::MAX), (3, 17));
    assert_eq!(pack_badges(&[5, 5, 5], 100, 1), (1, 5));
    assert_eq!(pack_badges(&[0, 5], 100, usize::MAX), (0, 0));
    assert_eq!(badge_budget(0, 3, 20, 1), 17);
    assert_eq!(badge_budget(0, 3, 20, 2), usize::MAX);
    assert_eq!(count_label(None, 12), "12 skills");
    let names: Vec<String> = ["tool", "dev", "tool", "中文", "shared"].iter().map(|s| s.to_string()).collect();
    assert_eq!(badge_names(&names), vec!["dev", "shared", "tool", "中文"]);
    assert_eq!(count_label(Some((1, 28)), 3), "1/28 skills");
}

#[test]
fn entries_map_their_state_once() {
    let broken = SkillPresentation::entry("calendar", Some("  "), Some(&EntryState::Broken));
    assert_eq!(broken.marker, "!");
    assert_eq!(broken.tone, Tone::Error);
    assert_eq!(broken.source, "broken link");
    assert_eq!(broken.warning.as_deref(), Some("broken link"));
    assert_eq!(broken.description, "the link points at something the root no longer has");
    let foreign = SkillPresentation::entry("x", None, Some(&EntryState::Foreign { target: "/opt/x".into() }));
    assert_eq!(foreign.description, "links outside the root to /opt/x");
    let linked = SkillPresentation::entry("x", Some("Calendar details"), Some(&EntryState::Deployed));
    assert_eq!(linked.description, "Calendar details");
    assert_eq!(linked.warning, None);
    let mut state = SkillRenderState::default();
    assert!(state.show_tags);
    assert_eq!(linked.marker_text(&state), (" ✓  ".to_string(), Some(Tone::Healthy)));
    state.update_available = true;
    assert_eq!(linked.marker_text(&state).0, " ↑  ");
    state.checked = Some(true);
    assert_eq!(broken.marker_text(&state), ("[✓] ".to_string(), Some(Tone::Error)));
    state.context = Some("git".into());
    assert_eq!(linked.source(&state), "linked");
    state.context = Some("events".into());
    assert_eq!(linked.source(&state), "linked · events");
}

#[test]
fn names_and_health_markers() {
    assert_eq!(display_name(Some("mock-calendar"), "repos/x/skills--mock-calendar"), "mock-calendar");
    assert_eq!(display_name(Some(" "), "repos/x/skills--mock-calendar"), "skills--mock-calendar");
    assert_eq!(display_name(None, "plain"), "plain");
    assert_eq!(status_marker(&SkillStatus::Local), ("●", Tone::Healthy));
    assert_eq!(status_marker(&SkillStatus::Modified), ("✎", Tone::Warning));
    assert_eq!(status_marker(&SkillStatus::Invalid { reason: "x".into() }), ("!", Tone::Error));
}

#[test]
fn every_group_requires_an_explicit_choice_before_confirmation() {
    let mut picker = NameChoices::new(vec![1, 1]);
    assert!(!picker.ready());
    assert_eq!(picker.decisions(), None);
    assert_eq!(picker.apply(), skills::name_choices::ApplyOutcome::Incomplete);
    assert_eq!(skills::name_choices::incomplete_message(), "Choose every conflicting name before applying");
    assert_eq!(picker.len(), 2);
    picker.pick(Some(0));
    let row = picker.move_group(true);
    assert_eq!(row, 0);
    picker.pick(Some(1));
    assert_eq!(picker.choices, vec![Some(0), Some(1)]);
    assert!(picker.ready());
    assert_eq!(picker.decisions(), Some(vec![Some(0), None]));
    assert_eq!(picker.apply(), skills::name_choices::ApplyOutcome::Confirm(vec![Some(0), None]));
    assert!(picker.marked(1) && !picker.marked(0));
    assert_eq!(picker.move_group(true), 0);
    assert_eq!(picker.group, 0);
    assert_eq!(picker.move_group(false), 1);
    assert_eq!(name_key(Key::Esc), NameKey::Close);
    assert_eq!(name_key(Key::Char('a')), NameKey::Apply);
    assert_eq!(name_key(Key::Left), NameKey::MoveGroup(false));
}

#[test]
fn preset_members_are_added_once_and_removed_in_order() {
    let mut members: Vec<String> = vec!["a".into(), "b".into(), "c".into()];
    let keys: Vec<String> = vec!["c".into(), "d".into(), "d".into()];
    assert!(toggle_adds(&members, &keys));
    edit_members(&mut members, &keys, true);
    assert_eq!(members, vec!["a", "b", "c", "d"]);
    assert!(!toggle_adds(&members, &keys));
    edit_members(&mut members, &["a".to_string(), "d".to_string()], false);
    assert_eq!(members, vec!["b", "c"]);
}

fn lines(a: &str, b: &str) -> (String, String) {
    (a.to_string(), b.to_string())
}

#[test]
fn cards_summaries_wrap_readable_markdown_and_keep_graphemes_intact() {
    assert_eq!(summary_lines("**Hello** `world`", 20), lines("Hello world", ""));
    assert_eq!(summary_lines("中文测试日历管理", 8), lines("中文测试", "日历管理"));
    assert_eq!(summary_lines("one two three four five", 10), lines("one two", "three fou…"));
    assert_eq!(summary_lines("👩‍💻👩‍💻👩‍💻", 4), lines("👩‍💻👩‍💻", "👩‍💻"));
    assert_eq!(card_cols_for(280), 7);
}

#[test]
fn presentation_tests_summaries_wrap_readable_markdown_and_keep_graphemes_intact() {
    assert_eq!(summary_lines("**Hello** `world`", 20), lines("Hello world", ""));
    assert_eq!(summary_lines("中文测试日历管理", 8), lines("中文测试", "日历管理"));
    assert_eq!(summary_lines("one two three four five", 10), lines("one two", "three fou…"));
    assert_eq!(summary_lines("👩‍💻👩‍💻👩‍💻", 4), lines("👩‍💻👩‍💻", "👩‍💻"));
}

#[test]
fn summaries_collapse_white_space_and_respect_tiny_widths() {
    assert_eq!(plain_summary("  a\n\n  b  "), "a b");
    assert_eq!(summary_lines("anything", 0), lines("", ""));
    assert_eq!(wrap_summary("abcdef", 3), lines("abc", "def"));
    assert_eq!(wrap_summary("abcdefgh", 3), lines("abc", "de…"));
    assert_eq!(wrap_summary("ab cdef", 4), lines("ab", "cdef"));
}

#[test]
fn colour_picker_starts_at_current_or_default_colour() {
    let palette: Vec<String> = ["red", "green", "blue", "#b87e54"].iter().map(|s| s.to_string()).collect();
    for palette in [palette, Vec::new()] {
        let (rows, selected) = color_rows(None, &palette);
        let chosen = selected.map(|i| rows[i].as_str());
        assert_eq!(prompt_color("", chosen), Some(None));
        assert_eq!(color_text("", chosen), Some(None));
        for current in ["blue", "#b87e54"] {
            let (rows, selected) = color_rows(Some(current), &palette);
            let chosen = selected.map(|i| rows[i].as_str());
            assert_eq!(color_text("", chosen), Some(Some(current.into())));
        }
    }
}

#[test]
fn typed_colours_win_over_the_highlighted_row() {
    assert_eq!(color_text(" #00ff00 ", Some("none")), Some(Some("#00ff00".into())));
    assert_eq!(prompt_color(" #00ff00 ", None), Some(Some(Color::Rgb(0, 255, 0))));
    assert_eq!(color_text("not a colour", Some("red")), Some(Some("red".into())));
    assert_eq!(prompt_color("", Some("red")), Some(Some(Color::Red)));
    assert_eq!(prompt_color("", Some("mauve-ish")), None);
    assert_eq!(color_text("", None), None);
    let (rows, selected) = color_rows(Some("teal"), &["red".to_string()]);
    assert_eq!(rows, vec!["teal", "red", "none"]);
    assert_eq!(selected, Some(0));
}

#[test]
fn panes_stack_when_narrow_and_sit_side_by_side_when_wide() {
    let layout = LayoutMetrics::default();
    assert_eq!(pane_plan(Rect::new(0, 0, 80, 40), 30, &layout), (true, 14));
    assert_eq!(pane_plan(Rect::new(0, 0, 80, 20), 30, &layout), (true, 9));
    assert_eq!(pane_plan(Rect::new(0, 0, 120, 40), 30, &layout), (false, 30));
    assert_eq!(pane_plan(Rect::new(0, 0, 100, 40), 80, &layout), (false, 50));
    let (list, details) = split_panes(Rect::new(0, 0, 120, 40), 30, &layout);
    assert_eq!(list, Rect::new(0, 0, 30, 40));
    assert_eq!(details, Rect::new(30, 0, 90, 40));
    let (list, details) = split_panes(Rect::new(0, 0, 80, 20), 30, &layout);
    assert_eq!(list, Rect::new(0, 0, 80, 9));
    assert_eq!(details, Rect::new(0, 9, 80, 11));
    assert_eq!(position_text(0, 10, 25, 40, 1).as_deref(), Some(" ↓ more · 1–10 / 25 "));
    assert_eq!(position_text(20, 25, 25, 40, 1).as_deref(), Some(" 21–25 / 25 "));
    assert_eq!(position_text(0, 0, 0, 40, 1), None);
    assert_eq!(position_text(0, 1, 1, 4, 1), None);
}

#[test]
fn colour_and_merge_prompts_survive_tiny_terminal_resize() {
    // One choice; a tag previews one row, a preset its card.
    for preview_height in [1, 3] {
        for (width, height) in [(40, 12), (40, 11), (20, 8), (4, 3), (1, 1), (80, 24)] {
            let rect = prompt_rect(Rect::new(0, 0, width, height), 1, preview_height);
            assert!(rect.right() <= width && rect.bottom() <= height);
        }
    }
}

#[test]
fn dialogs_are_centred_and_capped() {
    assert_eq!(prompt_rect(Rect::new(0, 0, 80, 24), 1, 1), Rect::new(12, 8, 56, 8));
    assert_eq!(prompt_rect(Rect::new(0, 0, 80, 24), 30, 3), Rect::new(12, 1, 56, 22));
    assert_eq!(dialog_rect(Rect::new(0, 0, 200, 50)), Rect::new(45, 13, 110, 24));
    assert_eq!(dialog_rect(Rect::new(2, 2, 1, 1)), Rect::new(2, 2, 0, 0));
}

#[test]
fn footer_buttons_fit_small_windows() {
    for (w, h) in [(1, 1), (12, 2), (22, 2), (80, 2)] {
        let (apply, cancel) = footer_buttons(Rect::new(0, 0, w, h));
        for r in [apply, cancel] {
            assert!(r.right() <= w && r.bottom() <= h);
        }
    }
    assert_eq!(footer_buttons(Rect::new(0, 0, 80, 2)), (Rect::new(58, 1, 11, 1), Rect::new(69, 1, 11, 1)));
    assert_eq!(footer_buttons(Rect::new(0, 0, 0, 2)), (Rect::new(0, 0, 0, 0), Rect::new(0, 0, 0, 0)));
}

#[test]
fn rows_share_columns_between_name_source_and_tags() {
    let layout = LayoutMetrics::default();
    assert_eq!(
        compact_layout(80, 10, &layout),
        CompactLayout { name_width: 26, source_width: 10, tags_width: 37 }
    );
    assert_eq!(
        compact_layout(20, 30, &layout),
        CompactLayout { name_width: 6, source_width: 7, tags_width: 0 }
    );
    assert_eq!(compact_layout(3, 0, &layout), CompactLayout { name_width: 0, source_width: 0, tags_width: 0 });
    assert_eq!(identity_layout(40, 4, Some(10)), (26, true));
    assert_eq!(identity_layout(20, 4, Some(10)), (16, false));
    assert_eq!(identity_layout(2, 4, None), (0, false));
    assert_eq!(footer_source_width(40, 0), 40);
    assert_eq!(footer_source_width(40, 10), 29);
    assert_eq!(footer_source_width(5, 10), 0);
}

#[test]
fn highlights_cover_the_text_once() {
    assert_eq!(
        highlight_pieces(10, &[(2, 4), (4, 6), (8, 10)]),
        vec![(0, 2, false), (2, 4, true), (4, 6, true), (6, 8, false), (8, 10, true)]
    );
    assert_eq!(highlight_pieces(3, &[]), vec![(0, 3, false)]);
    assert_eq!(highlight_pieces(0, &[]), vec![]);
    assert_eq!(health_marker(&SkillStatus::Modified), ("~   ", Tone::Warning));
    assert_eq!(health_marker(&SkillStatus::Repository), (" ●  ", Tone::Healthy));
}

fn tags_page() -> skills::tag_keys::TagsPage {
    skills::tag_keys::TagsPage {
        prompt_open: false,
        members_focused: false,
        panel_open: true,
        panel_ready: true,
        plain: true,
        selected: Some(2),
        members: 3,
        actionable: true,
    }
}

#[test]
fn tags_page_keys_ask_the_filter_then_reach_the_list() {
    let page = tags_page();
    assert_eq!(tags_key(page, Key::Down, None, None), TagCommand::Ask(Question::Filter));
    assert_eq!(tags_key(page, Key::Down, None, Some(true)), TagCommand::Refilter);
    assert_eq!(tags_key(page, Key::Down, None, Some(false)), TagCommand::Down);
    assert_eq!(tags_key(page, Key::Char('q'), None, Some(false)), TagCommand::SwitchToSearch);
    assert_eq!(tags_key(page, Key::Esc, None, Some(false)), TagCommand::SwitchToSearch);
    assert_eq!(tags_key(page, Key::Up, None, Some(false)), TagCommand::Up);
    let top = skills::tag_keys::TagsPage { selected: Some(0), ..page };
    assert_eq!(tags_key(top, Key::Char('k'), None, Some(false)), TagCommand::EditFilter);
    assert_eq!(tags_key(page, Key::Enter, None, Some(false)), TagCommand::FocusMembers);
    let empty = skills::tag_keys::TagsPage { members: 0, ..page };
    assert_eq!(tags_key(empty, Key::Right, None, Some(false)), TagCommand::Nothing);
    let untagged = skills::tag_keys::TagsPage { actionable: false, ..page };
    assert_eq!(tags_key(untagged, Key::Char('r'), None, Some(false)), TagCommand::Nothing);
    assert_eq!(tags_key(page, Key::Char('r'), None, Some(false)), TagCommand::Rename);
    assert_eq!(tags_key(untagged, Key::Char('c'), None, Some(false)), TagCommand::NewTag);
    assert_eq!(tags_key(page, Key::Delete, None, Some(false)), TagCommand::DeleteTag);
    let prompt = skills::tag_keys::TagsPage { prompt_open: true, ..page };
    assert_eq!(tags_key(prompt, Key::Char('x'), None, None), TagCommand::ToPrompt);
}

#[test]
fn tags_page_member_keys_go_to_the_panel() {
    let page = skills::tag_keys::TagsPage { members_focused: true, ..tags_page() };
    assert_eq!(tags_key(page, Key::Left, None, None), TagCommand::Ask(Question::PanelBack));
    assert_eq!(tags_key(page, Key::Left, Some(true), None), TagCommand::LeaveMembers);
    assert_eq!(tags_key(page, Key::Left, Some(false), None), TagCommand::ToPanel);
    assert_eq!(tags_key(page, Key::Char('x'), None, None), TagCommand::RemoveMembers);
    assert_eq!(tags_key(page, Key::Char('a'), None, None), TagCommand::AddMembers);
    let held = skills::tag_keys::TagsPage { plain: false, ..page };
    assert_eq!(tags_key(held, Key::Char('x'), None, None), TagCommand::ToPanel);
    let closed = skills::tag_keys::TagsPage { panel_open: false, ..page };
    assert_eq!(tags_key(closed, Key::Char('j'), None, None), TagCommand::Down);
}

fn presets_page() -> skills::preset_keys::PresetsPage {
    skills::preset_keys::PresetsPage {
        prompt_open: false,
        focus_members: false,
        focus_tags: false,
        tag_cursor: 0,
        tag_groups: 3,
        tags_enabled: true,
        panel_open: true,
        panel_at_top: true,
        panel_ready: true,
        plain: true,
        selected: Some(1),
        members: 2,
    }
}

#[test]
fn presets_page_keys_go_through_matrix_and_filter_to_the_list() {
    let page = presets_page();
    assert_eq!(presets_key(page, Key::Down, None, None, None).1, PresetCommand::Ask(PresetQuestion::Matrix));
    assert_eq!(presets_key(page, Key::Down, Some(true), None, None).1, PresetCommand::Nothing);
    assert_eq!(presets_key(page, Key::Down, Some(false), None, None).1, PresetCommand::Ask(PresetQuestion::Filter));
    assert_eq!(presets_key(page, Key::Down, Some(false), Some(true), None).1, PresetCommand::Refilter);
    assert_eq!(presets_key(page, Key::Down, Some(false), Some(false), None).1, PresetCommand::Down);
    assert_eq!(presets_key(page, Key::Char('M'), Some(false), Some(false), None).1, PresetCommand::OpenMatrix);
    assert_eq!(presets_key(page, Key::Char('D'), Some(false), Some(false), None).1, PresetCommand::DeletePreset);
    assert_eq!(presets_key(page, Key::Char('x'), Some(false), Some(false), None).1, PresetCommand::Nothing);
    let (next, command) = presets_key(page, Key::Enter, Some(false), Some(false), None);
    assert_eq!(command, PresetCommand::Nothing);
    assert!(next.focus_members && next.focus_tags);
}

#[test]
fn presets_page_tag_row_moves_its_cursor_and_edits_by_group() {
    let row = skills::preset_keys::PresetsPage { focus_members: true, focus_tags: true, ..presets_page() };
    let (next, _) = presets_key(row, Key::Right, Some(false), None, None);
    assert_eq!(next.tag_cursor, 1);
    let end = skills::preset_keys::PresetsPage { tag_cursor: 2, ..row };
    assert_eq!(presets_key(end, Key::Char('l'), Some(false), None, None).0.tag_cursor, 2);
    let (left, _) = presets_key(row, Key::Left, Some(false), None, None);
    assert!(!left.focus_members && !left.focus_tags);
    assert_eq!(presets_key(end, Key::Enter, Some(false), None, None).1, PresetCommand::ToggleGroup(2));
    assert_eq!(presets_key(end, Key::Delete, Some(false), None, None).1, PresetCommand::RemoveGroup(2));
    let (down, command) = presets_key(row, Key::Down, Some(false), None, None);
    assert_eq!(command, PresetCommand::FocusPanelList);
    assert!(down.focus_members && !down.focus_tags);
    let (up, _) = presets_key(down, Key::Up, Some(false), None, None);
    assert!(up.focus_tags);
    let back = after_panel_key(down, Key::Enter, true, false);
    assert!(back.focus_tags);
    assert_eq!(after_panel_key(down, Key::Char('z'), true, false), down);
}

#[test]
fn preset_colour_picker_saves_resets_and_cancels_without_changing_members() {
    let office = PresetRecord {
        name: "Office".into(),
        description: None,
        color: None,
        skills: vec!["document".into()],
    };
    let saved = finish_color(prompt_answer(Key::Enter), "#b87e54", None);
    assert_eq!(saved, ColorOutcome::Save(Some("#b87e54".into())));
    if let ColorOutcome::Save(color) = saved {
        let stored = recolor(office.clone(), color);
        assert_eq!(stored.color.as_deref(), Some("#b87e54"));
        assert_eq!(stored.skills, vec!["document".to_string()]);
    }
    assert_eq!(finish_color(prompt_answer(Key::Enter), "none", Some("none")), ColorOutcome::Save(None));
    assert_eq!(finish_color(prompt_answer(Key::Enter), "invalid-colour", None), ColorOutcome::Invalid);
    assert_eq!(color_error(), "Use a colour name or #rrggbb");
    assert_eq!(finish_color(prompt_answer(Key::Char('x')), "invalid-colour", None), ColorOutcome::Open);
    assert_eq!(finish_color(prompt_answer(Key::Esc), "invalid-colour", None), ColorOutcome::Closed);
}

#[test]
fn preview_blocks_member_removal_until_closed() {
    let previewing = skills::preset_keys::PresetsPage {
        focus_members: true,
        panel_ready: false,
        ..presets_page()
    };
    for key in [Key::Char('x'), Key::Delete, Key::Char('a')] {
        let (next, command) = presets_key(previewing, key, Some(false), None, None);
        assert_eq!(command, PresetCommand::ToPanel);
        assert_eq!(next, previewing);
    }
    let ready = skills::preset_keys::PresetsPage { panel_ready: true, ..previewing };
    assert_eq!(presets_key(ready, Key::Char('x'), Some(false), None, None).1, PresetCommand::RemoveMembers);
}

#[test]
fn prompt_frames_stack_input_preview_and_rows() {
    let r = |x, y, width, height| skills::panel::Rect { x, y, width, height };
    let frame = skills::panel::prompt_frame(r(0, 0, 80, 24), 3, skills::panel::preview_height(skills::group::Kind::Tag, None));
    assert_eq!(frame.rect, r(12, 7, 56, 9));
    assert!(!frame.too_small);
    assert_eq!(frame.field, r(14, 8, 52, 1));
    assert_eq!(frame.swatch, r(14, 9, 52, 1));
    assert_eq!(frame.list, r(13, 11, 54, 4));
    let preset = skills::panel::preview_height(skills::group::Kind::Preset, Some("**Useful** tools"));
    assert_eq!(preset, 4);
    for (w, h) in [(40, 12), (40, 11), (20, 8), (4, 3), (1, 1), (80, 24)] {
        let area = r(3, 2, w, h);
        let f = skills::panel::prompt_frame(area, 6, preset);
        assert!(f.rect.x >= area.x && f.rect.x + f.rect.width <= area.x + area.width);
        assert!(f.rect.y >= area.y && f.rect.y + f.rect.height <= area.y + area.height);
    }
    assert!(skills::panel::prompt_frame(r(0, 0, 4, 3), 1, 1).too_small);
    assert_eq!(skills::panel::prompt_title(skills::group::Ask::Color, "Office"), " colour of Office ");
    assert_eq!(skills::panel::prompt_title(skills::group::Ask::Merge, "a"), " merge a into ");
}

#[test]
fn badge_strips_keep_the_selected_badge_in_view() {
    assert_eq!(skills::strip::strip_selection(true, 3, 1, 2), 5);
    assert_eq!(skills::strip::strip_selection(false, 3, 1, 2), 1);
    let widths = [5usize, 5, 5, 5];
    assert_eq!(skills::strip::window(&widths, 3, 0, 10), (2, 4));
    assert_eq!(skills::strip::window(&widths, 0, 2, 10), (0, 2));
    assert_eq!(skills::strip::window(&widths, 2, 1, 12), (1, 3));
    assert_eq!(skills::strip::window(&[30usize, 2], 0, 0, 10), (0, 1));
    assert_eq!(skills::strip::window(&[], 0, 0, 10), (0, 0));
    let rects = skills::strip::badge_rects(&[3, 4, 2], 0, 3, 2, 1);
    let xs: Vec<(u16, u16)> = rects.iter().map(|r| (r.x, r.width)).collect();
    assert_eq!(xs, vec![(2, 2), (5, 3), (9, 1)]);
    let keys: Vec<String> = vec!["a".into(), "b".into(), "c".into()];
    let members: Vec<String> = vec!["b".into(), "c".into(), "d".into()];
    assert_eq!(skills::strip::coverage(&keys, &members), 2);
    assert_eq!(skills::strip::coverages(&[keys.clone(), vec![]], &members), vec![2, 0]);
}

#[test]
fn name_conflict_dialog_lays_out_rows_and_buttons() {
    assert_eq!(candidate_row(true, Some("first"), "/tmp/example/skills/first", false), "[✓] Keep first · /tmp/example/skills/first");
    assert_eq!(candidate_row(false, None, "/a", true), "[ ] Keep agent-owned entry · /a (others may be archived)");
    assert_eq!(keep_none_row(false), "[ ] Keep none");
    assert_eq!(dialog_title(0, 2), " Name conflict · 1/2 ");
    let area = skills::panel::Rect { x: 0, y: 0, width: 120, height: 30 };
    let f = choices_frame(area, 2);
    assert!(!f.too_small);
    assert_eq!(f.rect, skills::panel::Rect { x: 5, y: 3, width: 110, height: 24 });
    assert_eq!(f.list, skills::panel::Rect { x: 6, y: 7, width: 108, height: 16 });
    assert_eq!(f.footer.y, 25);
    assert_eq!(f.previous, skills::panel::Rect { x: 6, y: 25, width: 12, height: 1 });
    assert_eq!(choices_frame(area, 1).previous.width, 0);
    assert!(choices_frame(skills::panel::Rect { x: 0, y: 0, width: 40, height: 9 }, 2).too_small);
}

#[test]
fn panel_inputs_separators_and_positions_are_placed() {
    let r = |x, y, width, height| skills::panel::Rect { x, y, width, height };
    assert_eq!(skills::panel::input_prefix(skills::panel::PanelLayout::Separate), " › ");
    let (prompt, field) = skills::panel::input_parts(skills::panel::PanelLayout::Separate, r(1, 1, 20, 1));
    assert_eq!((prompt, field), (r(1, 1, 3, 1), r(4, 1, 17, 1)));
    let (prompt, field) = skills::panel::input_parts(skills::panel::PanelLayout::Unified, r(1, 1, 2, 1));
    assert_eq!((prompt, field), (r(1, 1, 1, 1), r(2, 1, 1, 1)));
    assert_eq!(skills::panel::separator(r(0, 0, 30, 10)), Some(r(2, 2, 26, 1)));
    assert_eq!(skills::panel::separator(r(0, 0, 30, 4)), None);
    assert_eq!(skills::panel::position_rect(r(1, 9, 28, 1), 10), r(18, 9, 10, 1));
}

#[test]
fn compact_rows_show_pointer_source_tags_and_details() {
    let layout = skills::skill::CompactLayout { name_width: 10, source_width: 6, tags_width: 8 };
    let row = skills::skill::compact_row(layout, true, true, 2, true);
    assert_eq!(row.pointer, "▸ ");
    assert!(row.source && row.tags && row.details);
    assert_eq!(row.lines, 2);
    let plain = skills::skill::compact_row(
        skills::skill::CompactLayout { tags_width: 0, source_width: 0, ..layout },
        false,
        true,
        2,
        false,
    );
    assert_eq!(plain.pointer, "  ");
    assert!(!plain.source && !plain.tags);
    assert_eq!(plain.lines, 1);
    assert_eq!(skills::skill::detail_prefix(Some("SKILL.md")), "    SKILL.md ");
    assert_eq!(skills::skill::detail_prefix(Some("")), "    ");
    assert_eq!(skills::skill::detail_prefix(None), "    ");
}

#[test]
fn panes_give_the_first_its_length_and_the_second_the_rest() {
    let layout = skills::settings::LayoutMetrics::default();
    for (w, h, left) in [(120u16, 40u16, 30u16), (80, 20, 30), (200, 10, 500), (10, 3, 4), (0, 0, 5)] {
        let area = Rect::new(3, 2, w, h);
        let (vertical, length) = pane_plan(area, left, &layout);
        let (first, second) = split_panes(area, left, &layout);
        if vertical {
            let top = length.min(h);
            assert_eq!((first.x, first.y, first.width, first.height), (3, 2, w, top));
            assert_eq!((second.x, second.y, second.width, second.height), (3, 2 + top, w, h - top));
        } else {
            let side = length.min(w);
            assert_eq!((first.x, first.y, first.width, first.height), (3, 2, side, h));
            assert_eq!((second.x, second.y, second.width, second.height), (3 + side, 2, w - side, h));
        }
    }
}

#[test]
fn preset_tag_rows_sit_above_the_members() {
    let area = skills::panel::Rect { x: 2, y: 5, width: 40, height: 10 };
    let (row, budget, rest) = skills::strip::tag_row(area, true).unwrap();
    assert_eq!(row, skills::panel::Rect { x: 2, y: 6, width: 40, height: 1 });
    assert_eq!(budget, 36);
    assert_eq!(rest, skills::panel::Rect { x: 2, y: 8, width: 40, height: 7 });
    assert!(skills::strip::tag_row(area, false).is_none());
    assert!(skills::strip::tag_row(skills::panel::Rect { height: 2, ..area }, true).is_none());
    assert_eq!(skills::strip::strip_marks(1, 3, 3), (true, false));
    assert_eq!(skills::strip::strip_marks(0, 2, 3), (false, true));
}

#[test]
fn preset_commands_without_a_selection_say_how_to_create_one() {
    let page = skills::preset_keys::PresetsPage { selected: None, panel_open: false, members: 0, ..presets_page() };
    for key in ['a', 'e', 'r'] {
        assert_eq!(
            presets_key(page, Key::Char(key), Some(false), Some(false), None).1,
            PresetCommand::NoneSelected
        );
    }
    assert_eq!(presets_key(page, Key::Char('D'), Some(false), Some(false), None).1, PresetCommand::Nothing);
    assert_eq!(presets_key(page, Key::Char('C'), Some(false), Some(false), None).1, PresetCommand::Nothing);
    assert_eq!(skills::preset_keys::NO_PRESET, "no preset selected; press c to create one");
    let selected = presets_page();
    assert_eq!(
        presets_key(selected, Key::Char('e'), Some(false), Some(false), None).1,
        PresetCommand::Describe
    );
}

#[test]
fn footer_clips_to_small_windows_and_highlights_only_focused_button() {
    for (w, h) in [(1u16, 1u16), (12, 2), (22, 2), (80, 2)] {
        let area = Rect::new(0, 0, w, h);
        let (apply, cancel) = footer_buttons(area);
        for r in [apply, cancel] {
            assert!(r.right() <= w && r.bottom() <= h);
        }
        let (rule, summary) = skills::panel::footer_rows(area);
        assert_eq!(rule.is_some(), h > 1);
        assert_eq!(summary, Rect::new(0, h - 1, apply.x, 1));
        if w >= 22 {
            let (apply_look, cancel_look) = skills::choice::footer_looks(ChoiceFocus::Apply, false);
            assert!(apply_look.focused);
            assert!(!cancel_look.focused);
            assert!(apply_look.greyed);
        }
    }
    let (apply_look, cancel_look) = skills::choice::footer_looks(ChoiceFocus::Cancel, true);
    assert_eq!((apply_look.label, apply_look.focused, apply_look.greyed), ("[ ✓ Apply ]", false, false));
    assert_eq!((cancel_look.label, cancel_look.focused), ("[ Cancel ]", true));
    assert_eq!(skills::panel::footer_rows(Rect::new(0, 0, 80, 2)).0, Some(Rect::new(1, 0, 78, 1)));
}

fn pill(name: &str, coverage: Option<(usize, usize)>, max_width: usize) -> Option<(String, String, String)> {
    skills::pill::pill_text(name, coverage, "(", ")", max_width)
}

#[test]
fn pills_show_coverage_and_cut_the_name_to_fit() {
    let whole = Some(("(".to_string(), " ◐ office 1/2 ".to_string(), ")".to_string()));
    assert_eq!(pill("office", Some((1, 2)), 40), whole);
    assert_eq!(pill("office", Some((1, 2)), 13), Some(("(".into(), " ◐ off 1/2 ".into(), ")".into())));
    assert_eq!(pill("office", Some((1, 2)), 10), Some(("(".into(), " ◐  1/2 ".into(), ")".into())));
    assert_eq!(pill("office", Some((1, 2)), 9), None);
    assert_eq!(pill("office", Some((2, 2)), 40).unwrap().1, " ✓ office 2/2 ");
    assert_eq!(pill("office", Some((0, 0)), 40).unwrap().1, " ◦ office 0/0 ");
    assert_eq!(skills::pill::pill_text("日本", None, "", "", 4), Some(("".into(), " 日 ".into(), "".into())));
}

fn badge(kind: Kind, name: &str, coverage: Option<(usize, usize)>, icons: Icons) -> Option<(String, String, String)> {
    let mut badge = skills::pill::Badge::for_kind(kind, name.to_string());
    badge.coverage = coverage;
    badge.render(icons, ("[", "]"), 40).map(|p| (p.left, p.body, p.right))
}

#[test]
fn badges_take_the_ends_of_their_kind() {
    let preset = badge(Kind::Preset, "office", Some((1, 2)), Icons::Text);
    assert_eq!(preset, Some(("/".into(), " ◐ office 1/2 ".into(), "/".into())));
    let tag = badge(Kind::Tag, "mail", None, Icons::Text);
    assert_eq!(tag, Some(("(".into(), " mail ".into(), ")".into())));
    let nerd = badge(Kind::Tag, "mail", None, Icons::Nerd);
    assert_eq!(nerd, Some(("[".into(), " mail ".into(), "]".into())));
    assert_eq!(skills::pill::tag_caps(Icons::Text, ("[", "]")), ("(", ")"));
}

fn strings(items: &[&str]) -> Vec<String> {
    items.iter().map(|s| s.to_string()).collect()
}

#[test]
fn tag_pills_keep_room_for_the_count_of_the_rest() {
    let pill = |body: &str| TagPiece::Pill("(".into(), body.into(), ")".into());
    let tags = strings(&["a", "bb"]);
    assert_eq!(tag_pills(&tags, "(", ")", 20), vec![pill(" a "), TagPiece::Gap, pill(" bb ")]);
    assert_eq!(tag_pills(&tags, "(", ")", 10), vec![pill(" a "), TagPiece::More(" +1".into())]);
    assert_eq!(tag_pills(&tags, "(", ")", 7), vec![TagPiece::More(" +2".into())]);
    assert_eq!(tag_pills(&tags, "(", ")", 2), vec![TagPiece::More(" +".into())]);
    assert_eq!(tag_pills(&tags, "(", ")", 0), vec![]);
    assert_eq!(tag_pills(&[], "(", ")", 10), vec![]);
}

#[test]
fn compact_rows_fill_their_columns() {
    let skill = SkillPresentation {
        name: "calendar".into(),
        description: String::new(),
        source: "local".into(),
        tags: strings(&["events"]),
        marker: "●",
        tone: Tone::Healthy,
        warning: None,
    };
    let mut state = SkillRenderState::default();
    let layout = LayoutMetrics::default();
    let row = skill.compact(&state, &layout, 60, true, "(", ")");
    assert_eq!(row.pointer, "▸ ");
    assert_eq!(row.marker, " ●  ");
    assert_eq!(row.name, format!("calendar{}", " ".repeat(18)));
    assert_eq!(row.source, Some(" local".to_string()));
    assert_eq!(row.tags, Some(vec![TagPiece::Pill("(".into(), " events ".into(), ")".into())]));
    assert_eq!(row.details, None);
    state.show_match_details = true;
    state.context = Some("tags".into());
    state.excerpt = Some("hello world".into());
    state.checked = Some(true);
    let narrow = skill.compact(&state, &layout, 12, false, "(", ")");
    assert_eq!(narrow.pointer, "  ");
    assert_eq!(narrow.marker, "[✓] ");
    assert_eq!(narrow.details, Some(("    tags ".to_string(), "hel".to_string())));
    assert_eq!(narrow.source, Some(" loc".to_string()));
    assert_eq!(narrow.name, "ca");
    assert_eq!(narrow.tags, None);
}

#[test]
fn selected_pills_are_bold_and_underlined_while_focused() {
    let mut pill = skills::pill::Pill::new("office".to_string());
    let plain = pill.render("(", ")", 40).unwrap();
    assert_eq!((plain.body.as_str(), plain.bold, plain.underlined), (" office ", false, false));
    pill.selected = true;
    pill.coverage = Some((1, 3));
    let selected = pill.render("(", ")", 40).unwrap();
    assert_eq!((selected.body.as_str(), selected.bold, selected.underlined), (" ◐ office 1/3 ", true, false));
    pill.focused = true;
    assert!(pill.render("(", ")", 40).unwrap().underlined);
    assert!(pill.render("(", ")", 5).is_none());
}

#[test]
fn colour_rows_show_the_group_badge_and_the_colour_name() {
    let none = skills::pill::prompt_row(Ask::Color, Kind::Tag, "mail", "none", Icons::Text, ("[", "]"), 10);
    assert_eq!(none, skills::pill::PromptRow::Plain("none — the".into()));
    match skills::pill::prompt_row(Ask::Color, Kind::Preset, "office", "red", Icons::Text, ("[", "]"), 30) {
        skills::pill::PromptRow::Badge(Some(badge), suffix) => {
            assert_eq!((badge.left.as_str(), badge.body.as_str(), badge.right.as_str()), ("/", " office ", "/"));
            assert_eq!(suffix, "  red");
        }
        other => panic!("unexpected row {other:?}"),
    }
    match skills::pill::prompt_row(Ask::Merge, Kind::Preset, "office", "travel", Icons::Text, ("[", "]"), 30) {
        skills::pill::PromptRow::Badge(Some(badge), suffix) => {
            assert_eq!((badge.left.as_str(), badge.body.as_str()), ("(", " travel "));
            assert_eq!(suffix, "");
        }
        other => panic!("unexpected row {other:?}"),
    }
}

#[test]
fn prompt_previews_show_the_merge_or_the_colour() {
    let merge = skills::pill::preview(Ask::Merge, Kind::Tag, "mail", Some("post"), true, Icons::Text, ("[", "]"), 30);
    assert_eq!(merge.label.unwrap().body, " mail ");
    assert_eq!(merge.arrow, " → ");
    assert_eq!(merge.target.unwrap().body, " post ");
    let nothing = skills::pill::preview(Ask::Merge, Kind::Tag, "mail", None, true, Icons::Text, ("[", "]"), 30);
    assert_eq!(nothing.note, "nothing matches");
    let invalid = skills::pill::preview(Ask::Color, Kind::Tag, "mail", None, false, Icons::Text, ("[", "]"), 8);
    assert_eq!(invalid.note, "not a ");
    let card = skills::pill::preview(Ask::Color, Kind::Preset, "office", None, true, Icons::Text, ("[", "]"), 30);
    assert!(card.card && card.label.is_none());
}

#[test]
fn panels_at_the_last_column_have_no_width() {
    for layout in [PanelLayout::Separate, PanelLayout::Unified] {
        let regions = panel_areas(layout, Rect::new(u16::MAX, 0, 0, 10), 3);
        assert_eq!(regions.footer.x, u16::MAX);
        assert_eq!(regions.footer.width, 0);
    }
}

#[test]
fn words_that_name_no_colour_are_not_colours() {
    assert_eq!(prompt_color("invalid-colour", None), None);
    assert_eq!(prompt_color("none", None), None);
    assert_eq!(prompt_color("none", Some("none")), Some(None));
    assert_eq!(prompt_color("light-red", None), Some(Some(Color::LightRed)));
}

#[test]
fn cards_push_tags_to_the_right_of_the_source() {
    let skill = SkillPresentation {
        name: "calendar".into(),
        description: "Calendar details".into(),
        source: "local".into(),
        tags: strings(&["events"]),
        marker: "●",
        tone: Tone::Healthy,
        warning: None,
    };
    let state = SkillRenderState::default();
    let layout = LayoutMetrics::default();
    let card = skill.card(&state, &layout, 40, "(", ")");
    assert_eq!(card.marker, " ●  ");
    assert_eq!(card.name, format!("calendar{}", " ".repeat(28)));
    assert_eq!(card.warning, None);
    assert_eq!((card.first_line.as_str(), card.second_line.as_str()), ("Calendar details", ""));
    assert_eq!(card.source, "local");
    assert_eq!(card.gap, " ".repeat(25));
    assert_eq!(card.tags, vec![TagPiece::Pill("(".into(), " events ".into(), ")".into())]);
    let (first, rest, inner) = skill.list(&state, &layout, 42, true, "(", ")");
    assert_eq!((first.as_str(), rest.as_str()), ("▸ ", "  "));
    assert_eq!(inner, card);
    let warned = SkillPresentation { warning: Some("modified".into()), ..skill };
    let choosing = SkillRenderState { checked: Some(false), ..SkillRenderState::default() };
    let card = warned.card(&choosing, &layout, 40, "(", ")");
    assert_eq!(card.warning, Some(" ! modified".to_string()));
    assert_eq!(card.marker, "[ ] ");
    assert_eq!(card.name.chars().count(), 25);
}

#[test]
fn group_cards_put_the_count_at_the_right_end() {
    let tag = skills::pill::sidebar_card("office", 3, Some("**Printers** and docs"), Icons::Text, 30);
    assert_eq!(tag.marker, "● ");
    assert_eq!(tag.name, format!("office{}", " ".repeat(13)));
    assert_eq!(tag.gap, " ");
    assert_eq!(tag.count, "3 skills");
    assert_eq!(tag.description, Some("Printers and docs".to_string()));
    assert!(tag.badge.is_none());
    let preset = skills::pill::preset_card("office", 2, Some((1, 2)), Some("  "), Icons::Text, 30);
    let badge = preset.badge.unwrap();
    assert_eq!((badge.left.as_str(), badge.body.as_str(), badge.right.as_str()), ("/", " office ", "/"));
    assert_eq!(preset.count, "1/2 skills");
    assert_eq!(preset.gap, " ".repeat(10));
    assert_eq!(preset.description, None);
    assert_eq!(skills::pill::preset_card("office", 4, None, None, Icons::Text, 30).count, "4 skills");
}
