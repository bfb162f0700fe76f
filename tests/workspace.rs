use markd::workspace::{
    DebounceTimer, Editor, EditorEvent, HostAction, SchedulerPhase, StatusBar, TabState, Toolbar, ToolbarEvent,
    Workspace, WriteRequest, AUTOSAVE_INTERVAL_MS, DEBOUNCE_MS,
};

fn edit_at(ws: &mut Workspace, text: &str, now_ms: u64) -> Option<DebounceTimer> {
    ws.on_editor_event(EditorEvent::Changed(text.to_string()), now_ms)
}

fn edit(ws: &mut Workspace, text: &str) -> Option<DebounceTimer> {
    edit_at(ws, text, 0)
}

#[test]
fn new_workspace_state() {
    let ws = Workspace::new();
    assert_eq!(ws.tabs(), &vec![TabState { path: None, text: String::new() }]);
    assert_eq!(ws.active_tab_index(), 0);
    assert!(ws.auto_render());
    assert!(ws.autosave_running());
    assert_eq!(ws.phase(), SchedulerPhase::Idle);
    assert_eq!(ws.preview().text(), "");
    assert_eq!(ws.status_bar().line(), 1);
    assert_eq!(ws.status_bar().character(), 1);
    assert_eq!(AUTOSAVE_INTERVAL_MS, 30_000);
}

#[test]
fn three_quick_edits_render_once_with_the_last_text() {
    let mut ws = Workspace::new();
    let armed: Vec<DebounceTimer> = [(0u64, "a"), (50, "ab"), (100, "abc")]
        .iter()
        .map(|(t, text)| edit_at(&mut ws, text, *t).expect("auto-render arms a timer"))
        .collect();
    assert_eq!(ws.phase(), SchedulerPhase::DebouncePending);
    assert_eq!(armed.iter().map(|k| k.due_ms).collect::<Vec<u64>>(), vec![150, 200, 250]);
    for timer in &armed {
        assert_eq!(timer.delay_ms, DEBOUNCE_MS);
    }
    // every timer goes off when it is due; only the last publishes, at 250 ms
    assert!(!ws.debounce_elapsed(armed[0].generation, 150));
    assert!(!ws.debounce_elapsed(armed[1].generation, 200));
    assert!(!ws.debounce_elapsed(armed[2].generation, 249));
    assert_eq!(ws.preview().text(), "");
    assert!(ws.debounce_elapsed(armed[2].generation, 250));
    assert_eq!(ws.preview().text(), "abc");
    assert_eq!(ws.phase(), SchedulerPhase::Rendering);
    assert!(!ws.debounce_elapsed(armed[2].generation, 400));
    assert!(!ws.debounce_elapsed(armed[0].generation, 400));
    ws.render_completed();
    assert_eq!(ws.phase(), SchedulerPhase::Idle);
}

#[test]
fn timer_fires_with_the_text_at_fire_time() {
    let mut ws = Workspace::new();
    let timer = edit(&mut ws, "first").unwrap();
    ws.set_auto_render(false);
    assert_eq!(edit(&mut ws, "fresher"), None);
    assert!(ws.debounce_elapsed(timer.generation, timer.due_ms));
    assert_eq!(ws.preview().text(), "fresher");
    assert!(!ws.debounce_elapsed(timer.generation, timer.due_ms));
}

#[test]
fn edits_with_auto_render_off_arm_nothing() {
    let mut ws = Workspace::new();
    ws.on_toolbar_event(ToolbarEvent::ToggleAutoRender(false));
    assert!(!ws.auto_render());
    assert_eq!(edit(&mut ws, "x"), None);
    assert_eq!(ws.tabs()[0].text, "x");
    assert_eq!(ws.editor().text(), "x");
    assert_eq!(ws.phase(), SchedulerPhase::Idle);
    ws.set_auto_render(true);
    assert_eq!(ws.preview().text(), "");
    assert_eq!(ws.phase(), SchedulerPhase::Idle);
}

#[test]
fn render_now_bypasses_the_debounce() {
    let mut ws = Workspace::new();
    let timer = edit(&mut ws, "now").unwrap();
    assert_eq!(ws.on_toolbar_event(ToolbarEvent::Render), HostAction::Nothing);
    assert_eq!(ws.preview().text(), "now");
    assert_eq!(ws.phase(), SchedulerPhase::Rendering);
    ws.render_completed();
    assert_eq!(ws.phase(), SchedulerPhase::DebouncePending);
    assert!(ws.debounce_elapsed(timer.generation, timer.due_ms));
}

#[test]
fn new_file_cancels_the_pending_render() {
    let mut ws = Workspace::new();
    let timer = edit(&mut ws, "old document").unwrap();
    assert_eq!(ws.on_toolbar_event(ToolbarEvent::New), HostAction::Nothing);
    assert_eq!(ws.tabs().len(), 2);
    assert_eq!(ws.active_tab_index(), 1);
    assert_eq!(ws.editor().text(), "");
    assert_eq!(ws.preview().text(), "");
    assert!(!ws.debounce_elapsed(timer.generation, timer.due_ms));
    assert_eq!(ws.preview().text(), "");
}

#[test]
fn open_file_shows_the_content() {
    let mut ws = Workspace::new();
    let timer = edit(&mut ws, "draft").unwrap();
    assert_eq!(ws.on_toolbar_event(ToolbarEvent::Open), HostAction::PickFileToOpen);
    let r = ws.open_file("/tmp/notes.md".to_string(), Ok("# Notes".to_string()));
    assert_eq!(r, Ok(()));
    assert_eq!(ws.tabs().len(), 2);
    assert_eq!(ws.active_tab_index(), 1);
    assert_eq!(ws.tabs()[1], TabState { path: Some("/tmp/notes.md".to_string()), text: "# Notes".to_string() });
    assert_eq!(ws.editor().text(), "# Notes");
    assert_eq!(ws.preview().text(), "# Notes");
    assert!(!ws.debounce_elapsed(timer.generation, timer.due_ms));
}

#[test]
fn failed_open_changes_nothing() {
    let mut ws = Workspace::new();
    edit(&mut ws, "keep me");
    let r = ws.open_file("/missing.md".to_string(), Err("not found".to_string()));
    assert_eq!(r, Err("not found".to_string()));
    assert_eq!(ws.tabs().len(), 1);
    assert_eq!(ws.active_tab_index(), 0);
    assert_eq!(ws.tabs()[0].text, "keep me");
    assert_eq!(ws.phase(), SchedulerPhase::DebouncePending);
}

#[test]
fn save_untitled_asks_for_a_path() {
    let mut ws = Workspace::new();
    edit(&mut ws, "body");
    assert_eq!(ws.save_file(), HostAction::PickSavePath);
    assert_eq!(ws.on_toolbar_event(ToolbarEvent::Save), HostAction::PickSavePath);
    let write = ws.save_as("/tmp/a.md".to_string());
    assert_eq!(write, WriteRequest { path: "/tmp/a.md".to_string(), text: "body".to_string() });
    assert_eq!(ws.preview().text(), "");
    assert_eq!(ws.save_finished("/tmp/a.md".to_string(), Ok(())), Ok(()));
    assert_eq!(ws.tabs()[0].path, Some("/tmp/a.md".to_string()));
    assert_eq!(ws.preview().text(), "body");
    assert_eq!(ws.phase(), SchedulerPhase::Rendering);
    assert_eq!(
        ws.save_file(),
        HostAction::Write(WriteRequest { path: "/tmp/a.md".to_string(), text: "body".to_string() })
    );
}

#[test]
fn failed_save_keeps_the_path() {
    let mut ws = Workspace::new();
    edit(&mut ws, "body");
    let r = ws.save_finished("/readonly/a.md".to_string(), Err("denied".to_string()));
    assert_eq!(r, Err("denied".to_string()));
    assert_eq!(ws.tabs()[0].path, None);
    assert_eq!(ws.preview().text(), "");
    assert_eq!(ws.save_file(), HostAction::PickSavePath);
}

#[test]
fn autosave_without_a_path_writes_nothing() {
    let mut ws = Workspace::new();
    edit(&mut ws, "unsaved");
    assert!(ws.autosave_tick().is_empty());
}

#[test]
fn autosave_copies_each_document_with_a_path() {
    let mut ws = Workspace::new();
    ws.open_file("/a.md".to_string(), Ok("A".to_string())).unwrap();
    ws.new_file();
    ws.open_file("/b.md".to_string(), Ok("B".to_string())).unwrap();
    edit(&mut ws, "B2");
    assert_eq!(
        ws.autosave_tick(),
        vec![
            WriteRequest { path: "/a.md".to_string(), text: "A".to_string() },
            WriteRequest { path: "/b.md".to_string(), text: "B2".to_string() },
        ]
    );
}

#[test]
fn selecting_a_tab_shows_it() {
    let mut ws = Workspace::new();
    edit(&mut ws, "zero");
    ws.open_file("/one.md".to_string(), Ok("one".to_string())).unwrap();
    ws.select_tab(0);
    assert_eq!(ws.active_tab_index(), 0);
    assert_eq!(ws.active_text(), "zero");
    assert_eq!(ws.editor().text(), "zero");
    assert_eq!(ws.preview().text(), "zero");
    ws.select_tab(7);
    assert_eq!(ws.active_tab_index(), 0);
}

#[test]
fn cursor_is_shown_from_one() {
    let mut ws = Workspace::new();
    ws.on_cursor_moved(4, 0);
    assert_eq!(ws.status_bar().line(), 5);
    assert_eq!(ws.status_bar().character(), 1);
    ws.on_cursor_moved(usize::MAX, 2);
    assert_eq!(ws.status_bar().line(), usize::MAX);
    assert_eq!(ws.status_bar().character(), 3);
}

#[test]
fn panes_on_their_own() {
    let mut toolbar = Toolbar::new();
    assert!(toolbar.auto_render());
    assert_eq!(toolbar.toggle_auto_render(), ToolbarEvent::ToggleAutoRender(false));
    assert!(!toolbar.auto_render());
    assert_eq!(toolbar.toggle_auto_render(), ToolbarEvent::ToggleAutoRender(true));
    let mut bar = StatusBar::new();
    bar.set_cursor(3, 9);
    assert_eq!((bar.line(), bar.character()), (3, 9));
    let mut editor = Editor::new();
    assert_eq!(editor.text(), "");
    editor.set_text("t".to_string());
    assert_eq!(editor.text(), "t");
}
