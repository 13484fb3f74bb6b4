use coquerythmo_ui::comic_dubs::{
    format_time_ms, letter_gaps, nearest_keyframe, next_keyframe_at, previous_keyframe_at, scroll_rows,
    vertex_editor_duration_ms, wrap_text, ScrollDirection, TimelineButton, TimelineOutcome,
    VertexTimeline,
};
use coquerythmo_ui::comic_dubs::{
    control_action, handle_text_edit, media_click, page_step, BubbleStyle, BubbleTextEdit,
    ControlAnswer, MediaClick, MediaTab, MediaZone,
};
use coquerythmo_ui::event::{EventResponse, PointerKind, UiAction, UiEvent};

fn lines(text: &str, max: usize) -> Vec<String> {
    wrap_text(text, max)
}

#[test]
fn wrapping_breaks_between_words_that_do_not_fit() {
    assert_eq!(lines("Bonjour le monde", 7), vec!["Bonjour", "le", "monde"]);
    assert_eq!(lines("a b c", 3), vec!["a b", "c"]);
    assert_eq!(lines("un deux trois", 20), vec!["un deux trois"]);
}

#[test]
fn wrapping_cuts_words_longer_than_a_line() {
    assert_eq!(lines("abcdefgh xy", 3), vec!["abc", "def", "gh", "xy"]);
    assert_eq!(lines("abcdef", 3), vec!["abc", "def"]);
    assert_eq!(lines("ab abcdef", 3), vec!["ab", "abc", "def"]);
}

#[test]
fn wrapping_collapses_white_space() {
    assert_eq!(lines("  a \t\n b  ", 10), vec!["a b"]);
    assert_eq!(lines("a\u{00A0}b\u{3000}c", 10), vec!["a b c"]);
}

#[test]
fn wrapping_a_text_without_words_gives_one_empty_line() {
    assert_eq!(lines("", 5), vec![String::new()]);
    assert_eq!(lines("   ", 5), vec![String::new()]);
    assert_eq!(lines(" ", 0), vec![String::new()]);
}

#[test]
fn wrapped_lines_fit_and_keep_every_letter() {
    let text = "Les bulles gardent leur texte intégralement, même anticonstitutionnellement.";
    for max in 1..30 {
        let wrapped = lines(text, max);
        assert!(wrapped.iter().all(|line| line.chars().count() <= max));
        assert!(wrapped.iter().all(|line| !line.is_empty()));
        let kept: String = wrapped.concat().chars().filter(|c| !c.is_whitespace()).collect();
        let original: String = text.chars().filter(|c| !c.is_whitespace()).collect();
        assert_eq!(kept, original);
    }
}

#[test]
fn clock_labels_pad_seconds_and_milliseconds() {
    assert_eq!(format_time_ms(0), "0:00.000");
    assert_eq!(format_time_ms(61_005), "1:01.005");
    assert_eq!(format_time_ms(10_050), "0:10.050");
    assert_eq!(format_time_ms(59_999), "0:59.999");
    assert_eq!(format_time_ms(3_723_456), "62:03.456");
}

#[test]
fn timeline_span_is_bounded() {
    assert_eq!(vertex_editor_duration_ms(None, 0), 2_000);
    assert_eq!(vertex_editor_duration_ms(None, 2_500), 2_500);
    assert_eq!(vertex_editor_duration_ms(Some(5_000), 3_000), 5_000);
    assert_eq!(vertex_editor_duration_ms(Some(1_000), 4_000), 4_000);
    assert_eq!(vertex_editor_duration_ms(Some(100_000_000), 0), 86_400_000);
}

#[test]
fn neighbouring_keyframes() {
    let keyframes = vec![0, 500, 1_500];
    assert_eq!(previous_keyframe_at(&keyframes, 1_500), 500);
    assert_eq!(previous_keyframe_at(&keyframes, 501), 500);
    assert_eq!(previous_keyframe_at(&keyframes, 0), 0);
    assert_eq!(previous_keyframe_at(&vec![], 900), 0);
    assert_eq!(next_keyframe_at(&keyframes, 500, 3_000), 1_500);
    assert_eq!(next_keyframe_at(&keyframes, 1_500, 3_000), 3_000);
    assert_eq!(next_keyframe_at(&keyframes, 0, 3_000), 500);
}

#[test]
fn timeline_keys_move_the_playhead_and_select_keyframes() {
    let keyframes = vec![0, 500, 1_500];
    let duration = 3_000;
    let mut timeline = VertexTimeline::new();
    assert_eq!(
        timeline.handle_key(&UiEvent::PageDown, &keyframes, duration),
        TimelineOutcome::Consumed
    );
    assert_eq!(timeline.playhead_ms, 500);
    assert_eq!(timeline.selected_keyframe, Some(500));
    timeline.handle_key(&UiEvent::CursorRight, &keyframes, duration);
    assert_eq!(timeline.playhead_ms, 550);
    assert_eq!(timeline.selected_keyframe, None);
    timeline.handle_key(&UiEvent::CursorLeft, &keyframes, duration);
    assert_eq!(timeline.playhead_ms, 500);
    assert_eq!(timeline.selected_keyframe, Some(500));
    timeline.handle_key(&UiEvent::End, &keyframes, duration);
    assert_eq!(timeline.playhead_ms, 3_000);
    timeline.handle_key(&UiEvent::CursorRight, &keyframes, duration);
    assert_eq!(timeline.playhead_ms, 3_000);
    timeline.handle_key(&UiEvent::PageUp, &keyframes, duration);
    assert_eq!(timeline.playhead_ms, 1_500);
    timeline.handle_key(&UiEvent::Home, &keyframes, duration);
    assert_eq!(timeline.playhead_ms, 0);
    timeline.handle_key(&UiEvent::CursorLeft, &keyframes, duration);
    assert_eq!(timeline.playhead_ms, 0);
}

#[test]
fn timeline_enter_delete_and_escape() {
    let keyframes = vec![200];
    let mut timeline = VertexTimeline::new();
    timeline.set_playhead(700, &keyframes, 2_000);
    let enter = UiEvent::KeyInput { text: "\r".to_string() };
    assert_eq!(
        timeline.handle_key(&enter, &keyframes, 2_000),
        TimelineOutcome::SetKeyframe { at_ms: 700 }
    );
    assert_eq!(timeline.selected_keyframe, Some(700));
    assert_eq!(
        timeline.handle_key(&UiEvent::Delete, &keyframes, 2_000),
        TimelineOutcome::RemoveKeyframe { at_ms: 700 }
    );
    assert_eq!(timeline.selected_keyframe, None);
    assert_eq!(
        timeline.handle_key(&UiEvent::Delete, &keyframes, 2_000),
        TimelineOutcome::Consumed
    );
    let escape = UiEvent::KeyInput { text: "\u{1b}".to_string() };
    assert_eq!(
        timeline.handle_key(&escape, &keyframes, 2_000),
        TimelineOutcome::Close
    );
}

#[test]
fn preview_restarts_from_the_beginning_at_the_end_and_stops_there() {
    let keyframes = vec![1_000];
    let mut timeline = VertexTimeline::new();
    timeline.set_playhead(5_000, &keyframes, 2_000);
    assert_eq!(timeline.playhead_ms, 2_000);
    timeline.press(TimelineButton::Play, &keyframes, 2_000);
    assert!(timeline.is_playing());
    assert_eq!(timeline.playhead_ms, 0);
    timeline.advance(1_000, &keyframes, 2_000);
    assert_eq!(timeline.playhead_ms, 1_000);
    assert_eq!(timeline.selected_keyframe, Some(1_000));
    assert!(timeline.is_playing());
    timeline.advance(2_500, &keyframes, 2_000);
    assert_eq!(timeline.playhead_ms, 2_000);
    assert!(!timeline.is_playing());
    timeline.press(TimelineButton::Play, &keyframes, 2_000);
    timeline.press(TimelineButton::Play, &keyframes, 2_000);
    assert!(!timeline.is_playing());
}

#[test]
fn nudging_saturates_at_both_ends() {
    let keyframes = vec![];
    let mut timeline = VertexTimeline::new();
    timeline.nudge(-100, &keyframes, 2_000);
    assert_eq!(timeline.playhead_ms, 0);
    timeline.nudge(250, &keyframes, 2_000);
    assert_eq!(timeline.playhead_ms, 250);
    timeline.nudge(-50, &keyframes, 2_000);
    assert_eq!(timeline.playhead_ms, 200);
    timeline.nudge(i64::MAX, &keyframes, 2_000);
    assert_eq!(timeline.playhead_ms, 2_000);
    timeline.nudge(i64::MIN, &keyframes, 2_000);
    assert_eq!(timeline.playhead_ms, 0);
}

#[test]
fn media_list_scrolls_one_row_per_notch() {
    assert_eq!(scroll_rows(3, ScrollDirection::Up, 10), 2);
    assert_eq!(scroll_rows(0, ScrollDirection::Up, 10), 0);
    assert_eq!(scroll_rows(3, ScrollDirection::Down, 10), 4);
    assert_eq!(scroll_rows(10, ScrollDirection::Down, 10), 10);
    assert_eq!(scroll_rows(3, ScrollDirection::Still, 10), 3);
}

#[test]
fn letter_gaps_count_grapheme_clusters() {
    assert_eq!(letter_gaps(""), 0);
    assert_eq!(letter_gaps("a"), 0);
    assert_eq!(letter_gaps("abc"), 2);
    assert_eq!(letter_gaps("e\u{301}"), 0);
    assert_eq!(letter_gaps("a\r\nb"), 2);
}

#[test]
fn nearest_keyframe_prefers_the_earliest_of_equally_close_ones() {
    let keyframes = vec![0, 500, 1_500];
    assert_eq!(nearest_keyframe(&keyframes, 700), Some(500));
    assert_eq!(nearest_keyframe(&keyframes, 1_000), Some(500));
    assert_eq!(nearest_keyframe(&keyframes, 1_400), Some(1_500));
    assert_eq!(nearest_keyframe(&keyframes, 9_000), Some(1_500));
    assert_eq!(nearest_keyframe(&vec![], 3), None);
}

fn editing(playhead_ms: u64, selected: Option<u64>) -> Option<(u64, VertexTimeline)> {
    let mut timeline = VertexTimeline::new();
    timeline.playhead_ms = playhead_ms;
    timeline.selected_keyframe = selected;
    Some((7, timeline))
}

fn bubbles() -> Vec<BubbleStyle> {
    vec![BubbleStyle { id: 7, bold: true, strikethrough: false, underline: false }]
}

#[test]
fn vertex_editor_controls() {
    let keyframes = vec![0, 500, 1_500];
    let answer = |id: &str, editor| control_action(id, editor, &keyframes, 3_000, &bubbles(), None);
    assert_eq!(
        answer("comic.vertex.close", None),
        ControlAnswer::Action(UiAction::ComicDubsCloseVertexEditor)
    );
    assert_eq!(
        answer("comic.vertex.play", None),
        ControlAnswer::Action(UiAction::ComicDubsToggleVertexEditorPreview)
    );
    let editor = editing(500, Some(500));
    assert_eq!(
        answer("comic.vertex.add", editor),
        ControlAnswer::SetVertexKeyframe { bubble_id: 7, at_ms: 500 }
    );
    assert_eq!(
        answer("comic.vertex.delete", editor),
        ControlAnswer::Action(UiAction::ComicDubsRemoveBubbleVertexKeyframe { bubble_id: 7, at_ms: 500 })
    );
    assert_eq!(answer("comic.vertex.delete", editing(500, None)), ControlAnswer::Nothing);
    assert_eq!(
        answer("comic.vertex.previous", editor),
        ControlAnswer::Action(UiAction::ComicDubsSetVertexEditorPlayhead(0))
    );
    assert_eq!(
        answer("comic.vertex.next", editor),
        ControlAnswer::Action(UiAction::ComicDubsSetVertexEditorPlayhead(1_500))
    );
    assert_eq!(
        answer("comic.vertex.marker.1200", editor),
        ControlAnswer::Action(UiAction::ComicDubsSetVertexEditorPlayhead(1_200))
    );
    assert_eq!(answer("comic.vertex.add", None), ControlAnswer::Nothing);
}

#[test]
fn an_editor_on_a_deleted_bubble_answers_nothing() {
    let orphan = Some((99, VertexTimeline::new()));
    assert_eq!(
        control_action("comic.page.3", orphan, &vec![], 2_000, &bubbles(), None),
        ControlAnswer::Nothing
    );
    assert_eq!(
        control_action("comic.vertex.close", orphan, &vec![], 2_000, &bubbles(), None),
        ControlAnswer::Action(UiAction::ComicDubsCloseVertexEditor)
    );
}

#[test]
fn page_bubble_and_audio_controls() {
    let answer = |id: &str, selected| control_action(id, None, &vec![], 2_000, &bubbles(), selected);
    assert_eq!(answer("comic.page.3", None), ControlAnswer::Action(UiAction::ComicDubsSelectPage(3)));
    assert_eq!(answer("comic.page.+4", None), ControlAnswer::Action(UiAction::ComicDubsSelectPage(4)));
    assert_eq!(
        answer("comic.page.18446744073709551615", None),
        ControlAnswer::Action(UiAction::ComicDubsSelectPage(u64::MAX))
    );
    assert_eq!(answer("comic.page.18446744073709551616", None), ControlAnswer::Nothing);
    assert_eq!(answer("comic.page.x", None), ControlAnswer::Nothing);
    assert_eq!(answer("comic.page.", None), ControlAnswer::Nothing);
    assert_eq!(answer("comic.bubble.7", None), ControlAnswer::SelectBubble(7));
    assert_eq!(answer("comic.canvas.bubble.7", None), ControlAnswer::SelectBubble(7));
    assert_eq!(answer("comic.bubble.9", None), ControlAnswer::Nothing);
    assert_eq!(
        answer("comic.audio.12", Some(7)),
        ControlAnswer::Action(UiAction::ComicDubsAssignAudio { bubble_id: 7, audio_id: Some(12) })
    );
    assert_eq!(answer("comic.audio.12", None), ControlAnswer::Nothing);
    assert_eq!(answer("something.else", Some(7)), ControlAnswer::Nothing);
}

#[test]
fn style_controls_toggle_one_flag() {
    let answer = |id: &str| control_action(id, None, &vec![], 2_000, &bubbles(), None);
    assert_eq!(
        answer("comic.inspector.style.bold.7"),
        ControlAnswer::Action(UiAction::ComicDubsSetBubbleTextStyle {
            bubble_id: 7,
            bold: false,
            strikethrough: false,
            underline: false,
        })
    );
    assert_eq!(
        answer("comic.inspector.style.underline.7"),
        ControlAnswer::Action(UiAction::ComicDubsSetBubbleTextStyle {
            bubble_id: 7,
            bold: true,
            strikethrough: false,
            underline: true,
        })
    );
    assert_eq!(
        answer("comic.inspector.style.strikethrough.7"),
        ControlAnswer::Action(UiAction::ComicDubsSetBubbleTextStyle {
            bubble_id: 7,
            bold: true,
            strikethrough: true,
            underline: false,
        })
    );
    assert_eq!(answer("comic.inspector.style.bold.8"), ControlAnswer::Nothing);
}

fn typing(text: &str) -> Option<BubbleTextEdit> {
    Some(BubbleTextEdit { bubble_id: 7, text: text.to_string() })
}

fn key(text: &str) -> UiEvent {
    UiEvent::KeyInput { text: text.to_string() }
}

fn stored(text: &str) -> Option<EventResponse> {
    Some(EventResponse::Action(UiAction::ComicDubsSetBubbleText { bubble_id: 7, text: text.to_string() }))
}

#[test]
fn typing_into_a_bubble_stores_each_change() {
    let mut edit = typing("Bonjour");
    assert_eq!(handle_text_edit(&mut edit, &key("!")), stored("Bonjour!"));
    assert_eq!(handle_text_edit(&mut edit, &key("\x08")), stored("Bonjour"));
    assert_eq!(handle_text_edit(&mut edit, &key("a\u{7}b")), stored("Bonjourab"));
    assert_eq!(edit.as_ref().map(|e| e.text.as_str()), Some("Bonjourab"));
    assert_eq!(handle_text_edit(&mut edit, &UiEvent::CursorLeft), Some(EventResponse::Consumed));
    assert_eq!(edit.as_ref().map(|e| e.text.as_str()), Some("Bonjourab"));
    let mut empty = typing("");
    assert_eq!(handle_text_edit(&mut empty, &key("\x7f")), stored(""));
}

#[test]
fn bubble_text_stops_at_five_hundred_characters() {
    let mut edit = typing(&"a".repeat(499));
    let response = handle_text_edit(&mut edit, &key("bcd"));
    let expected = format!("{}b", "a".repeat(499));
    assert_eq!(response, stored(&expected));
}

#[test]
fn escape_enter_and_presses_end_the_edit() {
    let mut edit = typing("x");
    assert_eq!(handle_text_edit(&mut edit, &key("\x1b")), Some(EventResponse::Consumed));
    assert!(edit.is_none());
    let mut edit = typing("x");
    assert_eq!(handle_text_edit(&mut edit, &key("\r")), Some(EventResponse::Consumed));
    assert!(edit.is_none());
    let mut edit = typing("x");
    assert_eq!(handle_text_edit(&mut edit, &UiEvent::Pointer(PointerKind::MousePress)), None);
    assert!(edit.is_none());
    let mut none: Option<BubbleTextEdit> = None;
    assert_eq!(handle_text_edit(&mut none, &key("a")), None);
}

#[test]
fn header_buttons_step_through_pages() {
    let pages = vec![10, 20, 30];
    let select = |id| EventResponse::Action(UiAction::ComicDubsSelectPage(id));
    assert_eq!(page_step(&pages, Some(20), false), select(10));
    assert_eq!(page_step(&pages, Some(20), true), select(30));
    assert_eq!(page_step(&pages, Some(10), false), EventResponse::Consumed);
    assert_eq!(page_step(&pages, Some(30), true), EventResponse::Consumed);
    assert_eq!(page_step(&pages, Some(99), true), EventResponse::Consumed);
    assert_eq!(page_step(&pages, None, true), EventResponse::Consumed);
}

#[test]
fn media_rows_answer_by_zone() {
    let pages = vec![10, 20];
    let audios = vec![5];
    let act = |action| MediaClick::Respond(EventResponse::Action(action));
    assert_eq!(
        media_click(MediaTab::Images, 1, MediaZone::Remove, &pages, &audios),
        act(UiAction::ComicDubsRemovePage(20))
    );
    assert_eq!(
        media_click(MediaTab::Images, 0, MediaZone::MoveDown, &pages, &audios),
        act(UiAction::ComicDubsMovePage { page_id: 10, delta: 1 })
    );
    assert_eq!(
        media_click(MediaTab::Images, 1, MediaZone::MoveUp, &pages, &audios),
        act(UiAction::ComicDubsMovePage { page_id: 20, delta: -1 })
    );
    assert_eq!(
        media_click(MediaTab::Images, 0, MediaZone::Body, &pages, &audios),
        act(UiAction::ComicDubsSelectPage(10))
    );
    assert_eq!(media_click(MediaTab::Images, 2, MediaZone::Body, &pages, &audios), MediaClick::Missed);
    assert_eq!(
        media_click(MediaTab::Audios, 0, MediaZone::Remove, &pages, &audios),
        act(UiAction::ComicDubsRemoveAudio(5))
    );
    assert_eq!(media_click(MediaTab::Audios, 0, MediaZone::MoveUp, &pages, &audios), MediaClick::DragAudio(5));
    assert_eq!(media_click(MediaTab::Audios, 1, MediaZone::Body, &pages, &audios), MediaClick::Missed);
}

#[test]
fn wrapped_lines_joined_give_back_the_words() {
    let short = wrap_text("  un  deux\ttrois   quatre ", 9);
    assert_eq!(short, vec!["un deux", "trois", "quatre"]);
    assert_eq!(short.join(" "), "un deux trois quatre");
}

#[test]
fn only_a_blank_text_wraps_to_one_empty_line() {
    assert_eq!(wrap_text(" \t\n ", 4), vec![String::new()]);
    assert_eq!(wrap_text("", 4), vec![String::new()]);
    assert_ne!(wrap_text(" x ", 4), vec![String::new()]);
}
