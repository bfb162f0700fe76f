use vstd::prelude::*;

use crate::renderer::Preview;

verus! {

/// How long the editor must stay quiet before a scheduled render runs, in milliseconds.
pub const DEBOUNCE_MS: u64 = 150;

/// The period of the autosave loop, in milliseconds.
pub const AUTOSAVE_INTERVAL_MS: u64 = 30000;

/// What the editor tells the workspace.
pub enum EditorEvent {
    /// The buffer now holds this text.
    Changed(String),
}

/// What the toolbar's buttons ask for.
#[derive(Clone, Copy, Debug, PartialEq, Eq, Structural)]
pub enum ToolbarEvent {
    New,
    Open,
    Save,
    Render,
    ToggleAutoRender(bool),
}

/// One open document: where it is stored, if anywhere, and its text.
#[derive(Clone, Debug, PartialEq, Eq)]
pub struct TabState {
    pub path: Option<String>,
    pub text: String,
}

pub struct TabView {
    pub path: Option<Seq<char>>,
    pub text: Seq<char>,
}

impl View for TabState {
    type V = TabView;

    open spec fn view(&self) -> TabView {
        TabView {
            path: match self.path {
                Some(p) => Some(p@),
                None => None,
            },
            text: self.text@,
        }
    }
}

pub open spec fn tabs_view(s: Seq<TabState>) -> Seq<TabView> {
    s.map_values(|t: TabState| t@)
}

/// Where the scheduler stands.
#[derive(Clone, Copy, Debug, PartialEq, Eq, Structural)]
pub enum SchedulerPhase {
    Idle,
    DebouncePending,
    Rendering,
}

/// A timer for the host to arm: after `delay_ms`, at `due_ms` on the host's clock, it
/// reports `generation` back through `Workspace::debounce_elapsed`. Arming a new one
/// supersedes every earlier one.
#[derive(Clone, Copy, Debug, PartialEq, Eq, Structural)]
pub struct DebounceTimer {
    pub generation: u64,
    pub delay_ms: u64,
    pub due_ms: u64,
}

/// A text to be written to a file.
#[derive(Clone, Debug, PartialEq, Eq)]
pub struct WriteRequest {
    pub path: String,
    pub text: String,
}

pub struct WriteView {
    pub path: Seq<char>,
    pub text: Seq<char>,
}

impl View for WriteRequest {
    type V = WriteView;

    open spec fn view(&self) -> WriteView {
        WriteView { path: self.path@, text: self.text@ }
    }
}

pub open spec fn writes_view(s: Seq<WriteRequest>) -> Seq<WriteView> {
    s.map_values(|w: WriteRequest| w@)
}

/// What the host has to do for a toolbar button.
#[derive(Clone, Debug, PartialEq, Eq)]
pub enum HostAction {
    /// Nothing: the workspace did all there was to do.
    Nothing,
    /// Ask the user for a file, read it, and hand the outcome to `Workspace::open_file`.
    PickFileToOpen,
    /// Ask the user where to save, then write `Workspace::save_as` there.
    PickSavePath,
    /// Write this, and hand the outcome to `Workspace::save_finished`.
    Write(WriteRequest),
}

/// The toolbar's own state: whether its auto-render switch is on.
pub struct Toolbar {
    auto_render: bool,
}

impl Toolbar {
    pub fn new() -> (r: Toolbar)
        ensures
            r.auto_render_spec(),
    {
        Toolbar { auto_render: true }
    }

    pub closed spec fn auto_render_spec(&self) -> bool {
        self.auto_render
    }

    pub fn auto_render(&self) -> (r: bool)
        ensures
            r == self.auto_render_spec(),
    {
        self.auto_render
    }

    /// Flips the auto-render switch and reports its new position.
    pub fn toggle_auto_render(&mut self) -> (r: ToolbarEvent)
        ensures
            final(self).auto_render_spec() == !old(self).auto_render_spec(),
            r == ToolbarEvent::ToggleAutoRender(!old(self).auto_render_spec()),
    {
        self.auto_render = !self.auto_render;
        ToolbarEvent::ToggleAutoRender(self.auto_render)
    }
}

/// The status bar: the cursor position, counted from 1.
pub struct StatusBar {
    line: usize,
    character: usize,
}

impl View for StatusBar {
    type V = (usize, usize);

    closed spec fn view(&self) -> (usize, usize) {
        (self.line, self.character)
    }
}

impl StatusBar {
    pub fn new() -> (r: StatusBar)
        ensures
            r@ == (1usize, 1usize),
    {
        StatusBar { line: 1, character: 1 }
    }

    pub fn set_cursor(&mut self, line: usize, character: usize)
        ensures
            final(self)@ == (line, character),
    {
        self.line = line;
        self.character = character;
    }

    pub fn line(&self) -> (r: usize)
        ensures
            r == self@.0,
    {
        self.line
    }

    pub fn character(&self) -> (r: usize)
        ensures
            r == self@.1,
    {
        self.character
    }
}

/// The editor pane's buffer.
pub struct Editor {
    text: String,
}

impl View for Editor {
    type V = Seq<char>;

    closed spec fn view(&self) -> Seq<char> {
        self.text@
    }
}

impl Editor {
    pub fn new() -> (r: Editor)
        ensures
            r@ == Seq::<char>::empty(),
    {
        Editor { text: String::new() }
    }

    /// Replaces the buffer.
    pub fn set_text(&mut self, text: String)
        ensures
            final(self)@ == text@,
    {
        self.text = text;
    }

    pub fn text(&self) -> (r: &str)
        ensures
            r@ == self@,
    {
        self.text.as_str()
    }
}

/// The abstract state of the workspace.
pub struct WorkspaceView {
    pub tabs: Seq<TabView>,
    pub active: int,
    pub auto_render: bool,
    /// The generation of the latest debounce timer.
    pub generation: u64,
    /// Whether the latest debounce timer is still armed.
    pub pending: bool,
    /// When the latest debounce timer is due, in milliseconds on the host's clock.
    pub due: u64,
    /// Whether a published text awaits its render.
    pub rendering: bool,
    pub autosave: bool,
    /// The text last published to the preview.
    pub preview: Seq<char>,
    pub editor: Seq<char>,
    pub cursor: (usize, usize),
}

pub open spec fn well_formed(v: WorkspaceView) -> bool {
    v.tabs.len() > 0 && 0 <= v.active < v.tabs.len()
}

pub open spec fn active_text(v: WorkspaceView) -> Seq<char> {
    v.tabs[v.active].text
}

pub open spec fn next_generation(g: u64) -> u64 {
    if g == u64::MAX {
        0
    } else {
        (g + 1) as u64
    }
}

/// The time at which a timer armed at `now` is due; the clock's end bounds it.
pub open spec fn due_after(now: u64) -> u64 {
    if now <= u64::MAX - DEBOUNCE_MS {
        (now + DEBOUNCE_MS) as u64
    } else {
        u64::MAX
    }
}

/// The state after the editor's text changed to `text` at `now`: the active document and the
/// editor take the text and, with auto-render on, a new timer is armed.
pub open spec fn edited(o: WorkspaceView, text: Seq<char>, now: u64) -> WorkspaceView {
    let tabs = o.tabs.update(o.active, TabView { text, ..o.tabs[o.active] });
    if o.auto_render {
        WorkspaceView {
            tabs,
            editor: text,
            generation: next_generation(o.generation),
            pending: true,
            due: due_after(now),
            ..o
        }
    } else {
        WorkspaceView { tabs, editor: text, ..o }
    }
}

/// The timer that an edit at `now` arms, if auto-render is on.
pub open spec fn armed(o: WorkspaceView, now: u64) -> Option<DebounceTimer> {
    if o.auto_render {
        Some(
            DebounceTimer {
                generation: next_generation(o.generation),
                delay_ms: DEBOUNCE_MS,
                due_ms: due_after(now),
            },
        )
    } else {
        None
    }
}

/// Whether a timer of this generation, going off at `now`, publishes: only the latest armed
/// timer does, and not before it is due.
pub open spec fn fires(o: WorkspaceView, generation: u64, now: u64) -> bool {
    o.pending && generation == o.generation && now >= o.due
}

/// The state after a timer published: the active document's text is on the preview.
pub open spec fn published(o: WorkspaceView) -> WorkspaceView {
    WorkspaceView { pending: false, rendering: true, preview: active_text(o), ..o }
}

/// Edits in quick succession render once, with the last text, when the last timer is due.
/// After three edits at `t0`, `t1` and `t2` with auto-render on, the timers that the first two
/// armed never publish, whenever they go off; the third publishes exactly when its time
/// `t2 + DEBOUNCE_MS` has come, and it publishes the text of the third edit; after that no
/// timer publishes until the next edit.
pub proof fn lemma_debounce_renders_last_edit(
    v: WorkspaceView,
    x0: Seq<char>,
    t0: u64,
    x1: Seq<char>,
    t1: u64,
    x2: Seq<char>,
    t2: u64,
    now: u64,
)
    requires
        well_formed(v),
        v.auto_render,
        t0 <= t1 <= t2,
        t2 <= u64::MAX - DEBOUNCE_MS,
    ensures
        ({
            let v1 = edited(v, x0, t0);
            let v2 = edited(v1, x1, t1);
            let v3 = edited(v2, x2, t2);
            let k0 = armed(v, t0)->0;
            let k1 = armed(v1, t1)->0;
            let k2 = armed(v2, t2)->0;
            &&& !fires(v3, k0.generation, now)
            &&& !fires(v3, k1.generation, now)
            &&& fires(v3, k2.generation, now) <==> now >= t2 + DEBOUNCE_MS
            &&& k2.due_ms == t2 + DEBOUNCE_MS
            &&& active_text(published(v3)) == x2
            &&& published(v3).preview == x2
            &&& forall|g: u64, later: u64| !fires(published(v3), g, later)
        }),
{
    let v1 = edited(v, x0, t0);
    let v2 = edited(v1, x1, t1);
    let v3 = edited(v2, x2, t2);
    assert(v3.tabs[v3.active].text == x2);
}

pub open spec fn one_based(n: usize) -> usize {
    if n < usize::MAX {
        (n + 1) as usize
    } else {
        n
    }
}

pub open spec fn phase_of(v: WorkspaceView) -> SchedulerPhase {
    if v.rendering {
        SchedulerPhase::Rendering
    } else if v.pending {
        SchedulerPhase::DebouncePending
    } else {
        SchedulerPhase::Idle
    }
}

/// What the autosave writes: each document that has a path, with its text, in tab order.
pub open spec fn autosave_writes(tabs: Seq<TabView>) -> Seq<WriteView>
    decreases tabs.len(),
{
    if tabs.len() == 0 {
        Seq::empty()
    } else {
        autosave_writes(tabs.drop_last()) + match tabs.last().path {
            Some(p) => seq![WriteView { path: p, text: tabs.last().text }],
            None => Seq::empty(),
        }
    }
}

/// Documents that have no path are never written by the autosave: with no path anywhere, a
/// tick writes nothing.
pub proof fn lemma_autosave_skips_untitled(tabs: Seq<TabView>)
    requires
        forall|i: int| 0 <= i < tabs.len() ==> (#[trigger] tabs[i]).path is None,
    ensures
        autosave_writes(tabs) == Seq::<WriteView>::empty(),
    decreases tabs.len(),
{
    if tabs.len() > 0 {
        let init = tabs.drop_last();
        assert forall|i: int| 0 <= i < init.len() implies (#[trigger] init[i]).path is None by {
            assert(init[i] == tabs[i]);
        }
        lemma_autosave_skips_untitled(init);
        assert(tabs.last().path is None);
        assert(Seq::<WriteView>::empty() + Seq::<WriteView>::empty() =~= Seq::<WriteView>::empty());
    }
}

/// The preview scheduler: the open documents, the debounce and autosave policy, and the panes
/// it keeps in step.
pub struct Workspace {
    editor: Editor,
    preview: Preview,
    status_bar: StatusBar,
    tabs: Vec<TabState>,
    active_tab_index: usize,
    auto_render: bool,
    generation: u64,
    debounce_pending: bool,
    debounce_due: u64,
    rendering: bool,
    autosave_running: bool,
}

impl View for Workspace {
    type V = WorkspaceView;

    closed spec fn view(&self) -> WorkspaceView {
        WorkspaceView {
            tabs: tabs_view(self.tabs@),
            active: self.active_tab_index as int,
            auto_render: self.auto_render,
            generation: self.generation,
            pending: self.debounce_pending,
            due: self.debounce_due,
            rendering: self.rendering,
            autosave: self.autosave_running,
            preview: self.preview@,
            editor: self.editor@,
            cursor: self.status_bar@,
        }
    }
}

impl Workspace {
    /// One untitled, empty document; auto-render on; the autosave loop started.
    pub fn new() -> (r: Workspace)
        ensures
            well_formed(r@),
            r@ == (WorkspaceView {
                tabs: seq![TabView { path: None, text: Seq::empty() }],
                active: 0,
                auto_render: true,
                generation: 0,
                pending: false,
                due: 0,
                rendering: false,
                autosave: true,
                preview: Seq::empty(),
                editor: Seq::empty(),
                cursor: (1, 1),
            }),
    {
        let mut tabs: Vec<TabState> = Vec::new();
        tabs.push(TabState { path: None, text: String::new() });
        let mut workspace = Workspace {
            editor: Editor::new(),
            preview: Preview::new(),
            status_bar: StatusBar::new(),
            tabs,
            active_tab_index: 0,
            auto_render: true,
            generation: 0,
            debounce_pending: false,
            debounce_due: 0,
            rendering: false,
            autosave_running: false,
        };
        workspace.start_autosave();
        proof {
            assert(tabs_view(workspace.tabs@) =~= seq![TabView { path: None, text: Seq::empty() }]);
        }
        workspace
    }

    /// Starts the periodic autosave; it runs for as long as the workspace lives.
    fn start_autosave(&mut self)
        ensures
            final(self)@ == (WorkspaceView { autosave: true, ..old(self)@ }),
    {
        self.autosave_running = true;
    }

    /// Whether the autosave loop runs; the host then calls `autosave_tick` every
    /// `AUTOSAVE_INTERVAL_MS`.
    pub fn autosave_running(&self) -> (r: bool)
        ensures
            r == self@.autosave,
    {
        self.autosave_running
    }

    pub fn tabs(&self) -> (r: &Vec<TabState>)
        ensures
            tabs_view(r@) == self@.tabs,
    {
        &self.tabs
    }

    pub fn active_tab_index(&self) -> (r: usize)
        ensures
            r as int == self@.active,
    {
        self.active_tab_index
    }

    pub fn auto_render(&self) -> (r: bool)
        ensures
            r == self@.auto_render,
    {
        self.auto_render
    }

    pub fn preview(&self) -> (r: &Preview)
        ensures
            r@ == self@.preview,
    {
        &self.preview
    }

    pub fn editor(&self) -> (r: &Editor)
        ensures
            r@ == self@.editor,
    {
        &self.editor
    }

    pub fn status_bar(&self) -> (r: &StatusBar)
        ensures
            r@ == self@.cursor,
    {
        &self.status_bar
    }

    /// The text of the active document.
    pub fn active_text(&self) -> (r: &str)
        requires
            well_formed(self@),
        ensures
            r@ == active_text(self@),
    {
        self.tabs[self.active_tab_index].text.as_str()
    }

    pub fn phase(&self) -> (r: SchedulerPhase)
        ensures
            r == phase_of(self@),
    {
        if self.rendering {
            SchedulerPhase::Rendering
        } else if self.debounce_pending {
            SchedulerPhase::DebouncePending
        } else {
            SchedulerPhase::Idle
        }
    }

    /// Switches auto-render on or off. Switching it on renders nothing by itself.
    pub fn set_auto_render(&mut self, enabled: bool)
        ensures
            final(self)@ == (WorkspaceView { auto_render: enabled, ..old(self)@ }),
    {
        self.auto_render = enabled;
    }

    /// The editor's text changed: the active document takes it and, with auto-render on, a
    /// new debounce timer supersedes any pending one.
    pub fn on_editor_event(&mut self, event: EditorEvent, now_ms: u64) -> (r: Option<DebounceTimer>)
        requires
            well_formed(old(self)@),
        ensures
            well_formed(final(self)@),
            ({
                let EditorEvent::Changed(text) = event;
                &&& final(self)@ == edited(old(self)@, text@, now_ms)
                &&& r == armed(old(self)@, now_ms)
            }),
    {
        let EditorEvent::Changed(text) = event;
        let i = self.active_tab_index;
        let path = self.tabs[i].path.clone();
        let ghost before = self.tabs@;
        self.tabs[i] = TabState { path, text: text.clone() };
        self.editor.set_text(text);
        proof {
            assert(tabs_view(self.tabs@) =~= tabs_view(before).update(
                i as int,
                TabView { text: text@, ..tabs_view(before)[i as int] },
            ));
        }
        if self.auto_render {
            Some(self.schedule_render(now_ms))
        } else {
            None
        }
    }

    /// Arms a new debounce timer; any earlier one is stale from now on.
    fn schedule_render(&mut self, now_ms: u64) -> (r: DebounceTimer)
        ensures
            final(self)@ == (WorkspaceView {
                generation: next_generation(old(self)@.generation),
                pending: true,
                due: due_after(now_ms),
                ..old(self)@
            }),
            r == (DebounceTimer {
                generation: next_generation(old(self)@.generation),
                delay_ms: DEBOUNCE_MS,
                due_ms: due_after(now_ms),
            }),
    {
        self.generation = if self.generation == u64::MAX {
            0
        } else {
            self.generation + 1
        };
        self.debounce_pending = true;
        self.debounce_due = now_ms.saturating_add(DEBOUNCE_MS);
        DebounceTimer { generation: self.generation, delay_ms: DEBOUNCE_MS, due_ms: self.debounce_due }
    }

    /// A debounce timer went off at `now_ms`. Only the latest armed timer publishes, once it is
    /// due, and it publishes the text of the active document as it is now; a stale, cancelled
    /// or early one changes nothing.
    pub fn debounce_elapsed(&mut self, generation: u64, now_ms: u64) -> (r: bool)
        requires
            well_formed(old(self)@),
        ensures
            well_formed(final(self)@),
            r == fires(old(self)@, generation, now_ms),
            r ==> final(self)@ == published(old(self)@),
            !r ==> final(self)@ == old(self)@,
    {
        if self.debounce_pending && generation == self.generation && now_ms >= self.debounce_due {
            self.debounce_pending = false;
            self.render_now();
            true
        } else {
            false
        }
    }

    /// Publishes the active document's text to the preview at once, whatever the state of the
    /// debounce timer.
    pub fn render_now(&mut self)
        requires
            well_formed(old(self)@),
        ensures
            final(self)@ == (WorkspaceView {
                preview: active_text(old(self)@),
                rendering: true,
                ..old(self)@
            }),
    {
        let text = self.tabs[self.active_tab_index].text.clone();
        self.preview.set_text(text);
        self.rendering = true;
    }

    /// The host has rendered what was published.
    pub fn render_completed(&mut self)
        ensures
            final(self)@ == (WorkspaceView { rendering: false, ..old(self)@ }),
    {
        self.rendering = false;
    }

    fn cancel_debounce(&mut self)
        ensures
            final(self)@ == (WorkspaceView { pending: false, ..old(self)@ }),
    {
        self.debounce_pending = false;
    }

    /// Shows the active document in the editor.
    fn update_editor_from_active_tab(&mut self)
        requires
            well_formed(old(self)@),
        ensures
            final(self)@ == (WorkspaceView { editor: active_text(old(self)@), ..old(self)@ }),
    {
        let text = self.tabs[self.active_tab_index].text.clone();
        self.editor.set_text(text);
    }

    fn add_tab(&mut self, tab: TabState)
        requires
            well_formed(old(self)@),
        ensures
            well_formed(final(self)@),
            final(self)@ == (WorkspaceView {
                tabs: old(self)@.tabs.push(tab@),
                active: old(self)@.tabs.len() as int,
                ..old(self)@
            }),
    {
        let ghost before = self.tabs@;
        self.tabs.push(tab);
        self.active_tab_index = self.tabs.len() - 1;
        proof {
            assert(tabs_view(self.tabs@) =~= tabs_view(before).push(tab@));
        }
    }

    /// Opens a new, untitled document and shows it; a pending debounce render of the previous
    /// document is cancelled.
    pub fn new_file(&mut self)
        requires
            well_formed(old(self)@),
        ensures
            well_formed(final(self)@),
            final(self)@ == (WorkspaceView {
                tabs: old(self)@.tabs.push(TabView { path: None, text: Seq::empty() }),
                active: old(self)@.tabs.len() as int,
                pending: false,
                rendering: true,
                editor: Seq::empty(),
                preview: Seq::empty(),
                ..old(self)@
            }),
    {
        self.add_tab(TabState { path: None, text: String::new() });
        self.cancel_debounce();
        self.update_editor_from_active_tab();
        self.render_now();
    }

    /// Takes the outcome of reading a file. On success the file becomes a new document,
    /// shown at once, and a pending debounce render of the previous document is cancelled; on
    /// failure nothing changes and the error is handed back.
    pub fn open_file(&mut self, path: String, content: Result<String, String>) -> (r: Result<(), String>)
        requires
            well_formed(old(self)@),
        ensures
            well_formed(final(self)@),
            match content {
                Ok(text) => {
                    &&& r is Ok
                    &&& final(self)@ == (WorkspaceView {
                        tabs: old(self)@.tabs.push(TabView { path: Some(path@), text: text@ }),
                        active: old(self)@.tabs.len() as int,
                        pending: false,
                        rendering: true,
                        editor: text@,
                        preview: text@,
                        ..old(self)@
                    })
                },
                Err(e) => r == Err::<(), String>(e) && final(self)@ == old(self)@,
            },
    {
        match content {
            Ok(text) => {
                self.add_tab(TabState { path: Some(path), text });
                self.cancel_debounce();
                self.update_editor_from_active_tab();
                self.render_now();
                Ok(())
            },
            Err(e) => Err(e),
        }
    }

    /// What saving the active document takes: a write to its path, or first a path.
    pub fn save_file(&self) -> (r: HostAction)
        requires
            well_formed(self@),
        ensures
            match self@.tabs[self@.active].path {
                Some(p) => r matches HostAction::Write(w) && w@ == (WriteView {
                    path: p,
                    text: active_text(self@),
                }),
                None => r == HostAction::PickSavePath,
            },
    {
        let tab = &self.tabs[self.active_tab_index];
        match &tab.path {
            Some(p) => HostAction::Write(WriteRequest { path: p.clone(), text: tab.text.clone() }),
            None => HostAction::PickSavePath,
        }
    }

    /// The write that saves the active document to a chosen path.
    pub fn save_as(&self, path: String) -> (r: WriteRequest)
        requires
            well_formed(self@),
        ensures
            r@ == (WriteView { path: path@, text: active_text(self@) }),
    {
        WriteRequest { path, text: self.tabs[self.active_tab_index].text.clone() }
    }

    /// Takes the outcome of saving the active document to `path`. On success the document is
    /// stored there from now on and its text is published to the preview at once, whatever the
    /// state of the debounce timer; on failure its path stays as it was, so a retry is possible,
    /// and the error is handed back.
    pub fn save_finished(&mut self, path: String, result: Result<(), String>) -> (r: Result<(), String>)
        requires
            well_formed(old(self)@),
        ensures
            well_formed(final(self)@),
            r == result,
            match result {
                Ok(_) => final(self)@ == (WorkspaceView {
                    tabs: old(self)@.tabs.update(
                        old(self)@.active,
                        TabView { path: Some(path@), ..old(self)@.tabs[old(self)@.active] },
                    ),
                    preview: active_text(old(self)@),
                    rendering: true,
                    ..old(self)@
                }),
                Err(_) => final(self)@ == old(self)@,
            },
    {
        if result.is_ok() {
            let i = self.active_tab_index;
            let text = self.tabs[i].text.clone();
            let ghost before = self.tabs@;
            let ghost p = path@;
            self.tabs[i] = TabState { path: Some(path), text };
            proof {
                assert(tabs_view(self.tabs@) =~= tabs_view(before).update(
                    i as int,
                    TabView { path: Some(p), ..tabs_view(before)[i as int] },
                ));
            }
            self.render_now();
        }
        result
    }

    /// One autosave tick: a copy of each document that has a path, to be written there. With
    /// no path anywhere there is nothing to write.
    pub fn autosave_tick(&self) -> (r: Vec<WriteRequest>)
        ensures
            writes_view(r@) == autosave_writes(self@.tabs),
    {
        let ghost all = tabs_view(self.tabs@);
        let mut writes: Vec<WriteRequest> = Vec::new();
        let mut i: usize = 0;
        proof {
            assert(writes_view(writes@) =~= Seq::<WriteView>::empty());
        }
        while i < self.tabs.len()
            invariant
                i <= self.tabs@.len(),
                all == tabs_view(self.tabs@),
                writes_view(writes@) == autosave_writes(all.take(i as int)),
            decreases self.tabs@.len() - i,
        {
            let ghost before = writes@;
            proof {
                assert(all.take(i as int + 1).drop_last() =~= all.take(i as int));
            }
            match &self.tabs[i].path {
                Some(p) => {
                    let w = WriteRequest { path: p.clone(), text: self.tabs[i].text.clone() };
                    writes.push(w);
                    proof {
                        assert(writes_view(writes@) =~= writes_view(before) + seq![w@]);
                    }
                },
                None => {
                    proof {
                        assert(writes_view(before) + Seq::<WriteView>::empty() =~= writes_view(
                            before,
                        ));
                    }
                },
            }
            i = i + 1;
        }
        proof {
            assert(all.take(i as int) =~= all);
        }
        writes
    }

    /// Makes another open document the active one and shows it; an index past the last
    /// document changes nothing.
    pub fn select_tab(&mut self, index: usize)
        requires
            well_formed(old(self)@),
        ensures
            well_formed(final(self)@),
            index < old(self)@.tabs.len() ==> final(self)@ == (WorkspaceView {
                active: index as int,
                editor: old(self)@.tabs[index as int].text,
                preview: old(self)@.tabs[index as int].text,
                rendering: true,
                ..old(self)@
            }),
            index >= old(self)@.tabs.len() ==> final(self)@ == old(self)@,
    {
        if index < self.tabs.len() {
            self.active_tab_index = index;
            self.update_editor_from_active_tab();
            self.render_now();
        }
    }

    /// The editor's cursor moved to a line and column counted from 0; the status bar shows
    /// them counted from 1.
    pub fn on_cursor_moved(&mut self, line: usize, column: usize)
        ensures
            final(self)@ == (WorkspaceView {
                cursor: (one_based(line), one_based(column)),
                ..old(self)@
            }),
    {
        self.status_bar.set_cursor(line.saturating_add(1), column.saturating_add(1));
    }

    /// Handles a toolbar button: creating a document, rendering and the auto-render switch
    /// are done here; opening and saving need the host.
    pub fn on_toolbar_event(&mut self, event: ToolbarEvent) -> (r: HostAction)
        requires
            well_formed(old(self)@),
        ensures
            well_formed(final(self)@),
            ({
                let o = old(self)@;
                match event {
                    ToolbarEvent::New => r == HostAction::Nothing && final(self)@ == (
                    WorkspaceView {
                        tabs: o.tabs.push(TabView { path: None, text: Seq::empty() }),
                        active: o.tabs.len() as int,
                        pending: false,
                        rendering: true,
                        editor: Seq::empty(),
                        preview: Seq::empty(),
                        ..o
                    }),
                    ToolbarEvent::Open => r == HostAction::PickFileToOpen && final(self)@ == o,
                    ToolbarEvent::Save => final(self)@ == o && match o.tabs[o.active].path {
                        Some(p) => r matches HostAction::Write(w) && w@ == (WriteView {
                            path: p,
                            text: active_text(o),
                        }),
                        None => r == HostAction::PickSavePath,
                    },
                    ToolbarEvent::Render => r == HostAction::Nothing && final(self)@ == (
                    WorkspaceView { preview: active_text(o), rendering: true, ..o }),
                    ToolbarEvent::ToggleAutoRender(enabled) => r == HostAction::Nothing
                        && final(self)@ == (WorkspaceView { auto_render: enabled, ..o }),
                }
            }),
    {
        match event {
            ToolbarEvent::New => {
                self.new_file();
                HostAction::Nothing
            },
            ToolbarEvent::Open => HostAction::PickFileToOpen,
            ToolbarEvent::Save => self.save_file(),
            ToolbarEvent::Render => {
                self.render_now();
                HostAction::Nothing
            },
            ToolbarEvent::ToggleAutoRender(enabled) => {
                self.set_auto_render(enabled);
                HostAction::Nothing
            },
        }
    }
}

} // verus!
