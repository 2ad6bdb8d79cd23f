//! The TUI's application-level values: tool and activity kinds, pickers,
//! timeline blocks, and the handling of collapsed pastes.
use vstd::prelude::*;

use crate::agent::AgentMode;
use crate::files::FileIndex;
use crate::permissions::Choice;
use crate::providers::{arg_str, Message};
use crate::tui::editor::{lines_of, text_spec, EditorAction, EditorView, TextEditor};
use std::collections::HashSet;
use crate::files::Match;
use crate::text::{
    chars_of, contains, decimal, eq_str, extend_chars, join_chars, join_with, lowercase, lowercase_of,
    push_decimal, push_str_chars, slice_chars, starts_with, str_lines, str_lines_of, string_of, trim_end_spec, view2,
};

verus! {

/// The moment a reasoning block started.
#[verifier::external_type_specification]
#[verifier::external_body]
pub struct ExInstant(std::time::Instant);

/// Pastes larger than this many lines are collapsed into a placeholder.
pub const PASTE_DIRECT_MAX_LINES: usize = 20;
/// Pastes longer than this many characters are collapsed into a placeholder.
pub const PASTE_DIRECT_MAX_CHARS: usize = 2000;

/// A paste placeholder is a line that collapses a large pasted block.
pub struct PasteEntry {
    pub placeholder: String,
    pub content: String,
}

/// Open @-mention autocomplete state.
pub struct MentionPicker {
    pub query: String,
    /// Byte range in the composer text that the selected result replaces.
    pub start: usize,
    pub end: usize,
    pub results: Vec<Match>,
    pub selected: usize,
}

/// A selectable model from any configured provider.
#[derive(Clone)]
pub struct ModelItem {
    pub provider: String,
    pub id: String,
    pub name: String,
}

#[derive(Clone)]
pub struct StatusInfo {
    pub model: String,
    pub provider: String,
    pub session: String,
    pub cwd: String,
    /// Resolved workspace identity (git root or normalized cwd).
    pub workspace: String,
    pub models: Vec<ModelItem>,
    /// Persisted prompt history (most recent first).
    pub history: Vec<String>,
    /// Named agents `(name, model)` from config.
    pub agents: Vec<(String, String)>,
    /// Agent mode restored from the session, if any.
    pub mode: AgentMode,
}

/// Open agent-mode selector.
pub struct ModePicker {
    pub modes: Vec<(AgentMode, &'static str)>,
    pub selected: usize,
}

/// Open theme selector.
pub struct ThemePicker {
    pub themes: Vec<String>,
    pub selected: usize,
}

pub struct ModelPicker {
    pub models: Vec<ModelItem>,
    pub selected: usize,
}

pub struct AgentPicker {
    /// `(name, model)` for each named agent, plus "default".
    pub agents: Vec<(String, String)>,
    pub selected: usize,
}

#[derive(Clone, Copy, PartialEq, Eq, Structural, Debug)]
pub enum ToolState {
    Running,
    Success,
    Failed,
}

#[derive(Clone, Copy, PartialEq, Eq, Structural, Debug)]
pub enum ToolKind {
    Read,
    Grep,
    List,
    Write,
    Edit,
    Shell,
    Git,
    Fetch,
    Search,
    Context,
    Other,
}

/// The kind of a tool by its name.
pub open spec fn tool_kind_spec(name: Seq<char>) -> ToolKind {
    if name == "read_file"@ {
        ToolKind::Read
    } else if name == "grep"@ {
        ToolKind::Grep
    } else if name == "list_directory"@ {
        ToolKind::List
    } else if name == "write_file"@ {
        ToolKind::Write
    } else if name == "edit_file"@ {
        ToolKind::Edit
    } else if name == "shell"@ {
        ToolKind::Shell
    } else if name == "git_diff"@ || name == "git_status"@ || name == "git_log"@ {
        ToolKind::Git
    } else if name == "web_fetch"@ {
        ToolKind::Fetch
    } else if name == "web_search"@ {
        ToolKind::Search
    } else if name == "context"@ {
        ToolKind::Context
    } else {
        ToolKind::Other
    }
}

pub open spec fn tool_label_spec(k: ToolKind) -> Seq<char> {
    match k {
        ToolKind::Read => "read"@,
        ToolKind::Grep => "grep"@,
        ToolKind::List => "ls"@,
        ToolKind::Write => "write"@,
        ToolKind::Edit => "edit"@,
        ToolKind::Shell => "shell"@,
        ToolKind::Git => "git"@,
        ToolKind::Fetch => "fetch"@,
        ToolKind::Search => "search"@,
        ToolKind::Context => "context"@,
        ToolKind::Other => "tool"@,
    }
}

impl ToolKind {
    pub fn from_name(name: &str) -> (r: ToolKind)
        ensures
            r == tool_kind_spec(name@),
    {
        let n = chars_of(name);
        if eq_str(&n, "read_file") {
            ToolKind::Read
        } else if eq_str(&n, "grep") {
            ToolKind::Grep
        } else if eq_str(&n, "list_directory") {
            ToolKind::List
        } else if eq_str(&n, "write_file") {
            ToolKind::Write
        } else if eq_str(&n, "edit_file") {
            ToolKind::Edit
        } else if eq_str(&n, "shell") {
            ToolKind::Shell
        } else if eq_str(&n, "git_diff") || eq_str(&n, "git_status") || eq_str(&n, "git_log") {
            ToolKind::Git
        } else if eq_str(&n, "web_fetch") {
            ToolKind::Fetch
        } else if eq_str(&n, "web_search") {
            ToolKind::Search
        } else if eq_str(&n, "context") {
            ToolKind::Context
        } else {
            ToolKind::Other
        }
    }

    pub fn label(&self) -> (r: &'static str)
        ensures
            r@ == tool_label_spec(*self),
    {
        match self {
            ToolKind::Read => "read",
            ToolKind::Grep => "grep",
            ToolKind::List => "ls",
            ToolKind::Write => "write",
            ToolKind::Edit => "edit",
            ToolKind::Shell => "shell",
            ToolKind::Git => "git",
            ToolKind::Fetch => "fetch",
            ToolKind::Search => "search",
            ToolKind::Context => "context",
            ToolKind::Other => "tool",
        }
    }
}

pub struct ToolBlock {
    pub kind: ToolKind,
    pub target: String,
    pub state: ToolState,
    pub output: String,
}

/// High-level phase of a run of related tool activity.
#[derive(Clone, Copy, PartialEq, Eq, Structural, Debug)]
pub enum ActivityPhase {
    Investigating,
    Modifying,
    Running,
}

impl ActivityPhase {
    pub fn label(&self) -> (r: &'static str)
        ensures
            r@ == (match *self {
                ActivityPhase::Investigating => "Investigating"@,
                ActivityPhase::Modifying => "Modifying files"@,
                ActivityPhase::Running => "Running"@,
            }),
    {
        match self {
            ActivityPhase::Investigating => "Investigating",
            ActivityPhase::Modifying => "Modifying files",
            ActivityPhase::Running => "Running",
        }
    }

    pub fn done_label(&self) -> (r: &'static str)
        ensures
            r@ == (match *self {
                ActivityPhase::Investigating => "Investigated"@,
                ActivityPhase::Modifying => "Modified"@,
                ActivityPhase::Running => "Ran"@,
            }),
    {
        match self {
            ActivityPhase::Investigating => "Investigated",
            ActivityPhase::Modifying => "Modified",
            ActivityPhase::Running => "Ran",
        }
    }
}

#[derive(Clone, Copy, PartialEq, Eq, Structural, Debug)]
pub enum ActivityStatus {
    Running,
    Success,
    Failed,
}

/// One tool invocation inside an activity group.
pub struct ActivityItem {
    pub name: String,
    pub kind: ToolKind,
    pub target: String,
    pub status: ActivityStatus,
    pub output: String,
}

/// A group of related tool activity (e.g. a repository investigation).
pub struct ActivityBlock {
    pub phase: ActivityPhase,
    pub items: Vec<ActivityItem>,
    pub done: bool,
}

/// Structured conversation block. The renderer owns per-type drawing.
pub enum UiBlock {
    User(String),
    Assistant { text: String },
    /// Compact reasoning status: shown as "◌ Thinking..." while streaming and
    /// "✓ Thought for Xs" once done. Raw reasoning text is never shown.
    Reasoning { started: std::time::Instant, done: Option<std::time::Duration> },
    Tool(ToolBlock),
    /// A group of related tool activity (e.g. a repository investigation).
    Activity(ActivityBlock),
    Diff { file: String, body: String },
    Error(String),
}

#[derive(Clone, Copy, PartialEq, Eq, Structural, Debug)]
pub enum Command {
    NewSession,
    Sessions,
    Models,
    Agent,
    Themes,
    Status,
    Stats,
    Help,
    Clear,
    Debug,
    Quit,
}

pub struct CommandPalette {
    pub commands: Vec<Command>,
    pub selected: usize,
    pub filter: String,
}

pub struct DiffViewer {
    pub body: String,
    pub scroll: usize,
}

#[derive(Clone)]
pub struct SessionItem {
    pub id: String,
    pub title: String,
    pub created_at: String,
}

#[derive(Clone)]
pub struct SessionPicker {
    pub sessions: Vec<SessionItem>,
    pub selected: usize,
    pub filter: String,
}

/// A count in thousands (`12k`) from 1000 on.
pub open spec fn human_count_spec(n: nat) -> Seq<char> {
    if n >= 1000 {
        decimal(n / 1000).push('k')
    } else {
        decimal(n)
    }
}

pub fn human_count(n: usize) -> (r: String)
    ensures
        r@ == human_count_spec(n as nat),
{
    let mut out: Vec<char> = Vec::new();
    if n >= 1000 {
        push_decimal(&mut out, n / 1000);
        out.push('k');
    } else {
        push_decimal(&mut out, n);
    }
    string_of(&out)
}

/// The content of the first paste whose placeholder is `line`.
pub open spec fn paste_for(pastes: Seq<PasteEntry>, line: Seq<char>) -> Option<Seq<char>>
    decreases pastes.len(),
{
    if pastes.len() == 0 {
        None
    } else if pastes[0].placeholder@ == line {
        Some(pastes[0].content@)
    } else {
        paste_for(pastes.drop_first(), line)
    }
}

/// Each line that is a paste placeholder replaced by its content.
pub open spec fn expand_pastes_spec(text: Seq<char>, pastes: Seq<PasteEntry>) -> Seq<char> {
    let lines = str_lines(text);
    join_with(
        Seq::new(
            lines.len(),
            |k: int|
                match paste_for(pastes, lines[k]) {
                    Some(c) => c,
                    None => lines[k],
                },
        ),
        '\n',
    )
}

fn paste_for_line(pastes: &[PasteEntry], line: &Vec<char>) -> (r: Option<usize>)
    ensures
        match paste_for(pastes@, line@) {
            Some(c) => r matches Some(i) && i < pastes@.len() && pastes@[i as int].content@ == c,
            None => r is None,
        },
{
    let mut i: usize = 0;
    assert(pastes@.skip(0) =~= pastes@);
    while i < pastes.len()
        invariant
            i <= pastes@.len(),
            paste_for(pastes@, line@) == paste_for(pastes@.skip(i as int), line@),
        decreases pastes@.len() - i,
    {
        assert(pastes@.skip(i as int).drop_first() =~= pastes@.skip(i + 1));
        if eq_str(line, pastes[i].placeholder.as_str()) {
            return Some(i);
        }
        i += 1;
    }
    None
}

/// Replace paste placeholder lines with their stored full content.
pub fn expand_pastes(text: &str, pastes: &[PasteEntry]) -> (r: String)
    ensures
        r@ == expand_pastes_spec(text@, pastes@),
{
    let lines = str_lines_of(&chars_of(text));
    let ghost lv = view2(lines@);
    let mut out: Vec<Vec<char>> = Vec::new();
    for k in 0..lines.len()
        invariant
            lv == view2(lines@),
            lv == str_lines(text@),
            view2(out@) =~= Seq::new(
                k as nat,
                |x: int|
                    match paste_for(pastes@, lv[x]) {
                        Some(c) => c,
                        None => lv[x],
                    },
            ),
    {
        let ghost want = match paste_for(pastes@, lv[k as int]) {
            Some(c) => c,
            None => lv[k as int],
        };
        let piece = match paste_for_line(pastes, &lines[k]) {
            Some(i) => chars_of(pastes[i].content.as_str()),
            None => {
                let p = crate::text::slice_chars(&lines[k], 0, lines[k].len());
                assert(p@ =~= lv[k as int]);
                p
            },
        };
        assert(piece@ == want);
        let ghost prev = view2(out@);
        out.push(piece);
        assert(view2(out@) =~= prev.push(
            match paste_for(pastes@, lv[k as int]) {
                Some(c) => c,
                None => lv[k as int],
            },
        ));
    }
    string_of(&join_chars(&out, '\n'))
}

/// The sending half of a one-shot reply channel.
#[verifier::external_type_specification]
#[verifier::external_body]
#[verifier::reject_recursive_types(T)]
pub struct ExSender<T>(tokio::sync::oneshot::Sender<T>);

/// A rectangle of the terminal.
#[derive(Debug, Clone, Copy, PartialEq, Eq, Structural, Default)]
pub struct Rect {
    pub x: u16,
    pub y: u16,
    pub width: u16,
    pub height: u16,
}

pub struct PermissionRequest {
    pub prompt: String,
    pub respond: Option<tokio::sync::oneshot::Sender<Choice>>,
    /// When true, keystrokes edit a feedback message; Enter denies with it.
    pub entering_feedback: bool,
    pub feedback: String,
}

pub struct QuestionRequest {
    pub prompt: String,
    pub options: Vec<String>,
    pub selected: usize,
    pub respond: Option<tokio::sync::oneshot::Sender<Option<String>>>,
}

/// The argument of a tool call that names what it acts on.
pub open spec fn target_key(k: ToolKind) -> Option<Seq<char>> {
    match k {
        ToolKind::Read | ToolKind::Write | ToolKind::Edit | ToolKind::List => Some("path"@),
        ToolKind::Grep => Some("pattern"@),
        ToolKind::Shell => Some("command"@),
        ToolKind::Fetch => Some("url"@),
        ToolKind::Search => Some("query"@),
        _ => None,
    }
}

pub open spec fn tool_target_spec(name: Seq<char>, args: Seq<char>) -> Seq<char> {
    match target_key(tool_kind_spec(name)) {
        Some(k) => match arg_str(args, k) {
            Some(v) => v,
            None => seq![],
        },
        None => seq![],
    }
}

/// The human-readable target of a tool call, taken from its JSON arguments.
pub fn tool_target(name: &str, args: &str) -> (r: String)
    ensures
        r@ == tool_target_spec(name@, args@),
{
    let key = match ToolKind::from_name(name) {
        ToolKind::Read | ToolKind::Write | ToolKind::Edit | ToolKind::List => "path",
        ToolKind::Grep => "pattern",
        ToolKind::Shell => "command",
        ToolKind::Fetch => "url",
        ToolKind::Search => "query",
        _ => return String::new(),
    };
    match crate::providers::arg_string(args, key) {
        Some(v) => v,
        None => String::new(),
    }
}

/// The current time, as `Instant::now()` reads it.
#[verifier::external_body]
fn instant_now() -> (r: std::time::Instant) {
    std::time::Instant::now()
}

/// How long ago `started` was, as `Instant::saturating_duration_since` gives it.
#[verifier::external_body]
fn since(now: std::time::Instant, started: std::time::Instant) -> (r: std::time::Duration) {
    now.saturating_duration_since(started)
}

pub struct App {
    pub content: Vec<UiBlock>,
    pub input: TextEditor,
    pub history: Vec<String>,
    pub history_idx: Option<usize>,
    pub draft: String,
    pub busy: bool,
    pub scroll: usize,
    pub auto_scroll: bool,
    pub show_tool_output: bool,
    pub pending_permission: Option<PermissionRequest>,
    pub pending_question: Option<QuestionRequest>,
    pub model_picker: Option<ModelPicker>,
    pub agent_picker: Option<AgentPicker>,
    pub command_palette: Option<CommandPalette>,
    pub session_picker: Option<SessionPicker>,
    pub diff_viewer: Option<DiffViewer>,
    pub leader_active: bool,
    pub suggestions: Vec<String>,
    pub pending: usize,
    pub status: StatusInfo,
    pub spinner: usize,
    pub quit: bool,
    pub last_error: Option<String>,
    pub toast: Option<(String, std::time::Instant)>,
    pub pastes: Vec<PasteEntry>,
    /// Index of the timeline item the user has selected (Ctrl+↑/↓).
    pub selected: Option<usize>,
    /// Timeline item indices explicitly expanded by the user.
    pub expanded: HashSet<usize>,
    /// Cached repository file index for @-mentions.
    pub file_index: Option<FileIndex>,
    pub mention_picker: Option<MentionPicker>,
    pub mode: AgentMode,
    pub mode_picker: Option<ModePicker>,
    pub theme_picker: Option<ThemePicker>,
    /// Mouse drag selection in content-area coordinates `(row, col)`.
    pub mouse_sel: Option<((usize, usize), (usize, usize))>,
    pub mouse_dragging: bool,
    /// Content-area row under the mouse pointer (for the active-line highlight).
    pub mouse_hover: Option<usize>,
    /// Content area geometry + last scroll, set each frame for mouse mapping.
    pub content_area: Rect,
    pub content_scroll: usize,
    /// Per-timeline-item terminal row ranges `(start, end)`, set each frame.
    pub item_ranges: Vec<(usize, usize)>,
}

fn clone_strings(v: &Vec<String>) -> (r: Vec<String>)
    ensures
        crate::goal::strs(r@) == crate::goal::strs(v@),
{
    let mut out: Vec<String> = Vec::new();
    for k in 0..v.len()
        invariant
            crate::goal::strs(out@) =~= crate::goal::strs(v@).take(k as int),
    {
        let ghost prev = crate::goal::strs(out@);
        out.push(v[k].clone());
        assert(crate::goal::strs(out@) =~= prev.push(v@[k as int]@));
    }
    assert(crate::goal::strs(v@).take(v@.len() as int) =~= crate::goal::strs(v@));
    out
}

/// Blocks that the timeline selection stops at.
pub open spec fn selectable(b: UiBlock) -> bool {
    b is Tool || b is Activity || b is Diff || b is Reasoning
}

/// The next selectable block after `cur` (before it, going back); none
/// once the ends are passed.
pub open spec fn step_from(content: Seq<UiBlock>, cur: int, forward: bool) -> Option<usize>
    decreases (if forward {
        content.len() - cur
    } else {
        cur + 1
    }),
{
    let nxt = if forward {
        cur + 1
    } else {
        cur - 1
    };
    if nxt < 0 || nxt >= content.len() {
        None
    } else if selectable(content[nxt]) {
        Some(nxt as usize)
    } else {
        step_from(content, nxt, forward)
    }
}

/// Where the timeline selection goes from `selected`.
pub open spec fn step_selection_spec(content: Seq<UiBlock>, selected: Option<usize>, forward: bool) -> Option<usize> {
    let start: int = match selected {
        Some(i) => i as int,
        None => if forward {
            -1
        } else {
            content.len() as int
        },
    };
    step_from(content, start, forward)
}

impl App {
    /// The editor inside is in a consistent state.
    pub open spec fn wf(&self) -> bool {
        self.input@.wf()
    }

    pub fn new(status: StatusInfo) -> (r: App)
        ensures
            r.wf(),
            r.content@.len() == 0,
            r.input@.lines == seq![Seq::<Seq<char>>::empty()],
            crate::goal::strs(r.history@) == crate::goal::strs(status.history@),
            r.history_idx is None,
            r.draft@ == Seq::<char>::empty(),
            !r.busy && r.scroll == 0 && r.auto_scroll && !r.show_tool_output,
            r.pending_permission is None && r.pending_question is None,
            r.model_picker is None && r.agent_picker is None && r.command_palette is None,
            r.session_picker is None && r.diff_viewer is None && r.mention_picker is None,
            r.mode_picker is None && r.theme_picker is None,
            !r.leader_active && r.suggestions@.len() == 0 && r.pending == 0,
            r.status == status,
            r.spinner == 0 && !r.quit && r.last_error is None && r.toast is None,
            r.pastes@.len() == 0 && r.selected is None && r.expanded@ == Set::<usize>::empty(),
            r.file_index is None,
            r.mode == status.mode,
            r.mouse_sel is None && !r.mouse_dragging && r.mouse_hover is None,
            r.content_area == (Rect { x: 0, y: 0, width: 0, height: 0 }),
            r.content_scroll == 0 && r.item_ranges@.len() == 0,
    {
        let history = clone_strings(&status.history);
        let mode = status.mode;
        App {
            content: Vec::new(),
            input: TextEditor::new(),
            history,
            history_idx: None,
            draft: String::new(),
            busy: false,
            scroll: 0,
            auto_scroll: true,
            show_tool_output: false,
            pending_permission: None,
            pending_question: None,
            model_picker: None,
            agent_picker: None,
            command_palette: None,
            session_picker: None,
            diff_viewer: None,
            leader_active: false,
            suggestions: Vec::new(),
            pending: 0,
            mode,
            status,
            spinner: 0,
            quit: false,
            last_error: None,
            toast: None,
            pastes: Vec::new(),
            selected: None,
            expanded: HashSet::new(),
            file_index: None,
            mention_picker: None,
            mode_picker: None,
            theme_picker: None,
            mouse_sel: None,
            mouse_dragging: false,
            mouse_hover: None,
            content_area: Rect { x: 0, y: 0, width: 0, height: 0 },
            content_scroll: 0,
            item_ranges: Vec::new(),
        }
    }

    /// Cycle to the next mode (PLAN → BUILD → AUTO → PLAN).
    pub fn cycle_mode(&mut self) -> (r: AgentMode)
        ensures
            *final(self) == (App { mode: crate::agent::next_mode(old(self).mode), ..*old(self) }),
            r == final(self).mode,
    {
        self.mode = self.mode.next();
        self.mode
    }

    pub fn mode(&self) -> (r: AgentMode)
        ensures
            r == self.mode,
    {
        self.mode
    }

    pub fn set_mode(&mut self, mode: AgentMode)
        ensures
            *final(self) == (App { mode, mode_picker: None, ..*old(self) }),
    {
        self.mode = mode;
        self.mode_picker = None;
    }

    /// Show a transient toast.
    pub fn show_toast(&mut self, msg: &str)
        ensures
            final(self).toast matches Some(t) && t.0@ == msg@,
            *final(self) == (App { toast: final(self).toast, ..*old(self) }),
    {
        self.toast = Some((String::from_str(msg), instant_now()));
    }

    /// Add a block to the timeline; counted as unseen while not following
    /// the bottom.
    pub fn push(&mut self, item: UiBlock)
        requires
            !old(self).auto_scroll ==> old(self).pending < usize::MAX,
        ensures
            final(self).content@ == old(self).content@.push(item),
            final(self).pending == if old(self).auto_scroll {
                old(self).pending
            } else {
                (old(self).pending + 1) as usize
            },
            *final(self) == (App { content: final(self).content, pending: final(self).pending, ..*old(self) }),
    {
        if !self.auto_scroll {
            self.pending += 1;
        }
        self.content.push(item);
    }

    pub fn scroll_to_bottom(&mut self)
        ensures
            *final(self) == (App { auto_scroll: true, pending: 0, ..*old(self) }),
    {
        self.auto_scroll = true;
        self.pending = 0;
    }

    /// Is a timeline item expanded? (user toggle or global "show all".)
    pub fn item_expanded(&self, index: usize) -> (r: bool)
        ensures
            r == (self.show_tool_output || self.expanded@.contains(index)),
    {
        broadcast use vstd::std_specs::hash::group_hash_axioms;
        self.show_tool_output || self.expanded.contains(&index)
    }

    /// Expand or collapse a timeline item.
    pub fn toggle_expanded(&mut self, index: usize)
        ensures
            final(self).expanded@ == if old(self).expanded@.contains(index) {
                old(self).expanded@.remove(index)
            } else {
                old(self).expanded@.insert(index)
            },
            *final(self) == (App { expanded: final(self).expanded, ..*old(self) }),
    {
        broadcast use vstd::std_specs::hash::group_hash_axioms;
        if !self.expanded.insert(index) {
            self.expanded.remove(&index);
            assert(final(self).expanded@ =~= old(self).expanded@.remove(index));
        }
    }

    fn step_selection(&mut self, forward: bool)
        ensures
            old(self).content@.len() == 0 ==> *final(self) == *old(self),
            old(self).content@.len() > 0 ==> *final(self) == (App {
                selected: step_selection_spec(old(self).content@, old(self).selected, forward),
                ..*old(self)
            }),
    {
        if self.content.len() == 0 {
            return;
        }
        let n = self.content.len();
        let mut cur: usize;
        let mut before_start: bool;
        match self.selected {
            Some(i) => {
                cur = i;
                before_start = false;
            },
            None => {
                if forward {
                    cur = 0;
                    before_start = true;
                } else {
                    cur = n;
                    before_start = false;
                }
            },
        }
        let ghost want = step_selection_spec(self.content@, self.selected, forward);
        loop
            invariant
                n == self.content@.len(),
                n > 0,
                before_start ==> forward && cur == 0,
                want == step_from(self.content@, if before_start { -1 } else { cur as int }, forward),
                want == step_selection_spec(old(self).content@, old(self).selected, forward),
                *self == (App { selected: self.selected, ..*old(self) }),
            decreases (if forward {
                n - (if before_start { -1 } else { cur as int })
            } else {
                cur as int + 1
            }),
        {
            let ghost here: int = if before_start {
                -1
            } else {
                cur as int
            };
            let nxt: usize;
            if forward {
                if before_start {
                    nxt = 0;
                } else {
                    if cur >= n - 1 {
                        assert(step_from(self.content@, here, forward) is None);
                        self.selected = None;
                        return;
                    }
                    nxt = cur + 1;
                }
            } else {
                if cur == 0 || cur > n {
                    assert(step_from(self.content@, here, forward) is None);
                    self.selected = None;
                    return;
                }
                nxt = cur - 1;
            }
            let sel = match &self.content[nxt] {
                UiBlock::Tool(_) | UiBlock::Activity(_) | UiBlock::Diff { .. } | UiBlock::Reasoning { .. } => true,
                _ => false,
            };
            assert(sel == selectable(self.content@[nxt as int]));
            if sel {
                assert(step_from(self.content@, here, forward) == Some(nxt));
                self.selected = Some(nxt);
                return;
            }
            assert(step_from(self.content@, here, forward) == step_from(self.content@, nxt as int, forward));
            cur = nxt;
            before_start = false;
        }
    }

    /// Move timeline selection to the previous collapsible item.
    pub fn select_prev(&mut self)
        ensures
            old(self).content@.len() == 0 ==> *final(self) == *old(self),
            old(self).content@.len() > 0 ==> *final(self) == (App {
                selected: step_selection_spec(old(self).content@, old(self).selected, false),
                ..*old(self)
            }),
    {
        self.step_selection(false);
    }

    /// Move timeline selection to the next collapsible item.
    pub fn select_next(&mut self)
        ensures
            old(self).content@.len() == 0 ==> *final(self) == *old(self),
            old(self).content@.len() > 0 ==> *final(self) == (App {
                selected: step_selection_spec(old(self).content@, old(self).selected, true),
                ..*old(self)
            }),
    {
        self.step_selection(true);
    }
}

/// Whether a text is empty.
pub fn str_is_empty(s: &str) -> (r: bool)
    ensures
        r == (s@.len() == 0),
{
    let n = crate::text::str_byte_len(s);
    proof {
        crate::text::lemma_byte_len_zero(s@);
    }
    n == 0
}

/// `a`, a newline, and `b` without its trailing whitespace.
pub open spec fn with_output(a: Seq<char>, b: Seq<char>) -> Seq<char> {
    a.push('\n') + trim_end_spec(b)
}

/// The copyable text of an activity group: each item's target, and its
/// output (trailing whitespace removed) on the next line when it has one;
/// items separated by newlines.
pub open spec fn activity_text(items: Seq<ActivityItem>) -> Seq<char>
    decreases items.len(),
{
    if items.len() == 0 {
        seq![]
    } else {
        let prev = activity_text(items.drop_last());
        let it = items.last();
        let a = if prev.len() > 0 {
            prev.push('\n')
        } else {
            prev
        };
        let b = a + it.target@;
        if it.output@.len() > 0 {
            with_output(b, it.output@)
        } else {
            b
        }
    }
}

/// Plain text of a conversation block, ready to copy.
pub open spec fn block_text_spec(b: UiBlock) -> Seq<char> {
    match b {
        UiBlock::User(t) => t@,
        UiBlock::Assistant { text } => text@,
        UiBlock::Reasoning { .. } => seq![],
        UiBlock::Tool(tb) => if tb.output@.len() == 0 {
            tb.target@
        } else {
            with_output(tb.target@, tb.output@)
        },
        UiBlock::Activity(a) => activity_text(a.items@),
        UiBlock::Diff { body, .. } => body@,
        UiBlock::Error(t) => t@,
    }
}

/// The text of the last non-empty assistant message among the first `n` blocks.
pub open spec fn last_assistant(c: Seq<UiBlock>, n: int) -> Option<Seq<char>>
    decreases n,
{
    if n <= 0 || n > c.len() {
        None
    } else if c[n - 1] is Assistant && block_text_spec(c[n - 1]).len() > 0 {
        Some(block_text_spec(c[n - 1]))
    } else {
        last_assistant(c, n - 1)
    }
}

/// The text of the last block among the first `n` that has some.
pub open spec fn last_text(c: Seq<UiBlock>, n: int) -> Option<Seq<char>>
    decreases n,
{
    if n <= 0 || n > c.len() {
        None
    } else if block_text_spec(c[n - 1]).len() > 0 {
        Some(block_text_spec(c[n - 1]))
    } else {
        last_text(c, n - 1)
    }
}

/// The text to copy: the selected timeline item, else the most recent
/// assistant message, else the last non-empty block.
pub open spec fn copy_target_spec(c: Seq<UiBlock>, selected: Option<usize>) -> Seq<char> {
    if selected is Some && selected.unwrap() < c.len() && block_text_spec(c[selected.unwrap() as int]).len() > 0 {
        block_text_spec(c[selected.unwrap() as int])
    } else {
        match last_assistant(c, c.len() as int) {
            Some(t) => t,
            None => match last_text(c, c.len() as int) {
                Some(t) => t,
                None => seq![],
            },
        }
    }
}

pub open spec fn command_filter_spec(c: Command) -> Seq<char> {
    match c {
        Command::NewSession => "new session"@,
        Command::Sessions => "sessions"@,
        Command::Models => "models"@,
        Command::Agent => "agent"@,
        Command::Themes => "themes"@,
        Command::Status => "status"@,
        Command::Stats => "stats"@,
        Command::Help => "help"@,
        Command::Clear => "clear"@,
        Command::Debug => "debug"@,
        Command::Quit => "quit"@,
    }
}

/// The commands whose filter text holds `f`.
pub open spec fn commands_matching(cmds: Seq<Command>, f: Seq<char>) -> Seq<Command>
    decreases cmds.len(),
{
    if cmds.len() == 0 {
        seq![]
    } else {
        let prev = commands_matching(cmds.drop_last(), f);
        if contains(command_filter_spec(cmds.last()), f) {
            prev.push(cmds.last())
        } else {
            prev
        }
    }
}

/// The commands a palette shows for its filter (lowercased).
pub open spec fn palette_spec(p: CommandPalette) -> Seq<Command> {
    let f = lowercase_of(p.filter@);
    if f.len() == 0 {
        p.commands@
    } else {
        commands_matching(p.commands@, f)
    }
}

pub open spec fn model_view(m: ModelItem) -> (Seq<char>, Seq<char>, Seq<char>) {
    (m.provider@, m.id@, m.name@)
}

pub open spec fn models_view(v: Seq<ModelItem>) -> Seq<(Seq<char>, Seq<char>, Seq<char>)> {
    Seq::new(v.len(), |i: int| model_view(v[i]))
}

pub open spec fn pairs_view(v: Seq<(String, String)>) -> Seq<(Seq<char>, Seq<char>)> {
    Seq::new(v.len(), |i: int| (v[i].0@, v[i].1@))
}

/// Recalling the previous prompt: the entry before the one shown (the
/// newest when none is, wrapping to the newest from the oldest) is loaded
/// into the composer; the draft is kept when leaving it. Nothing happens
/// without a history.
pub open spec fn history_prev_post(o: App, f: App) -> bool {
    &&& f.wf()
    &&& o.history@.len() == 0 ==> f == o
    &&& o.history@.len() > 0 ==> {
        let idx: usize = match o.history_idx {
            Some(i) => if i > 0 {
                (i - 1) as usize
            } else {
                (o.history@.len() - 1) as usize
            },
            None => (o.history@.len() - 1) as usize,
        };
        &&& f.history_idx == Some(idx)
        &&& f.draft@ == if o.history_idx is None {
            text_spec(o.input@.lines)
        } else {
            o.draft@
        }
        &&& f.input@ == loaded(o.input@, o.history@[idx as int]@)
        &&& f == (App { history_idx: f.history_idx, draft: f.draft, input: f.input, ..o })
    }
}

/// Recalling the next prompt: the entry after the one shown, or the draft
/// past the newest.
pub open spec fn history_next_post(o: App, f: App) -> bool {
    &&& f.wf()
    &&& match o.history_idx {
        Some(i) if i + 1 < o.history@.len() => {
            &&& f.history_idx == Some((i + 1) as usize)
            &&& f.input@ == loaded(o.input@, o.history@[i + 1]@)
        },
        _ => {
            &&& f.history_idx is None
            &&& f.input@ == loaded(o.input@, o.draft@)
        },
    }
    &&& f == (App { history_idx: f.history_idx, input: f.input, ..o })
}

/// Taking the typed input as a prompt: the text with paste placeholders
/// expanded, trimmed. An empty prompt changes nothing; otherwise it goes to
/// the front of the history, the composer is emptied, the prompt (and a line
/// of its @-mentions, if any) joins the timeline, and the agent is busy.
pub open spec fn submit_post(o: App, f: App, r: Option<String>) -> bool {
    &&& f.wf()
    &&& ({
        let t = crate::text::trim_spec(expand_pastes_spec(text_spec(o.input@.lines), o.pastes@));
        if t.len() == 0 {
            r is None && f == o
        } else {
            let ms = crate::mentions::mentions_from(t, 0);
            let n = o.content@.len();
            let added: nat = if ms.len() > 0 { 2 } else { 1 };
            &&& r matches Some(p) && p@ == t
            &&& crate::goal::strs(f.history@) == seq![t] + without(crate::goal::strs(o.history@), t)
            &&& f.history_idx is None
            &&& f.draft@ == Seq::<char>::empty()
            &&& cleared(o.input, f.input)
            &&& f.suggestions@.len() == 0
            &&& f.pastes@.len() == 0
            &&& f.content@.len() == n + added
            &&& f.content@.take(n as int) == o.content@
            &&& f.content@[n as int] matches UiBlock::User(u) && u@ == t
            &&& ms.len() > 0 ==> (f.content@[n as int + 1] matches UiBlock::Tool(tb)
                && tb.kind == ToolKind::Other && tb.state == ToolState::Success
                && tb.target@ == mention_line(ms) && tb.output@.len() == 0)
            &&& f.pending == if o.auto_scroll { o.pending } else { (o.pending + added) as usize }
            &&& f == (App {
                history: f.history,
                history_idx: None,
                draft: f.draft,
                input: f.input,
                suggestions: f.suggestions,
                pastes: f.pastes,
                mention_picker: None,
                content: f.content,
                pending: f.pending,
                busy: true,
                last_error: None,
                ..o
            })
        }
    })
}

/// The command palette has opened on all commands, with the composer
/// emptied.
pub open spec fn palette_opened(o: App, f: App) -> bool {
    &&& f.wf()
    &&& cleared(o.input, f.input)
    &&& f.suggestions@.len() == 0
    &&& f.command_palette matches Some(p) && p.selected == 0 && p.filter@ == Seq::<char>::empty()
        && p.commands@ == seq![
            Command::NewSession,
            Command::Sessions,
            Command::Models,
            Command::Agent,
            Command::Themes,
            Command::Status,
            Command::Stats,
            Command::Help,
            Command::Clear,
            Command::Debug,
            Command::Quit,
        ]
    &&& f == (App { input: f.input, suggestions: f.suggestions, command_palette: f.command_palette, ..o })
}

/// Choosing the mention picker's entry: the mention's text in the composer
/// becomes `@` and the chosen path (unless a selection is active, the text
/// is too long to measure, or the range runs backwards); the picker closes.
pub open spec fn mention_post(o: App, f: App) -> bool {
    &&& f.wf()
    &&& f.mention_picker is None
    &&& match o.mention_picker {
        Some(p) => if p.selected < p.results@.len() {
            f.input@ == (if o.input@.selection is None && crate::text::byte_len(text_spec(o.input@.lines))
                < usize::MAX && !(crate::tui::editor::from_byte_spec(o.input@.lines, p.start as nat).row
                == crate::tui::editor::from_byte_spec(o.input@.lines, p.end as nat).row
                && crate::tui::editor::from_byte_spec(o.input@.lines, p.start as nat).col
                > crate::tui::editor::from_byte_spec(o.input@.lines, p.end as nat).col) {
                o.input@.begin_edit().delete_range(
                    crate::tui::editor::from_byte_spec(o.input@.lines, p.start as nat),
                    crate::tui::editor::from_byte_spec(o.input@.lines, p.end as nat),
                ).insert_parts(crate::tui::editor::text_parts(seq!['@'] + p.results@[p.selected as int].path@))
            } else {
                o.input@
            })
        } else {
            f.input == o.input
        },
        None => f.input == o.input,
    }
    &&& f == (App { input: f.input, mention_picker: None, ..o })
}

/// Expanding the paste placeholder on the cursor's line: the line becomes
/// the pasted text and the suggestions follow; nothing happens on a line
/// that is no placeholder.
pub open spec fn paste_expand_post(o: App, f: App, r: bool) -> bool {
    let row = o.input@.cursor.row as int;
    match paste_for(o.pastes@, crate::tui::editor::line_text(o.input@.lines[row])) {
        Some(c) => {
            &&& r
            &&& f.input@ == o.input@.begin_edit().delete_range(
                crate::tui::editor::cursor_at(row, 0),
                crate::tui::editor::cursor_at(row, o.input@.lines[row].len() as int),
            ).insert_parts(crate::tui::editor::text_parts(c))
            &&& crate::goal::strs(f.suggestions@) == composer_suggestions(f)
            &&& f == (App { input: f.input, suggestions: f.suggestions, ..o })
        },
        None => !r && f == o,
    }
}

/// The editor has been emptied.
pub open spec fn cleared(before: TextEditor, after: TextEditor) -> bool {
    &&& after@.lines == seq![Seq::<Seq<char>>::empty()]
    &&& after@.cursor == crate::tui::editor::cursor_at(0, 0)
    &&& after@.selection is None
    &&& after@.scroll_row == 0
    &&& after@.undo.len() == 0
    &&& after@.redo.len() == 0
    &&& after@.clipboard == before@.clipboard
    &&& after@.wf()
}

fn activity_text_of(items: &Vec<ActivityItem>) -> (r: Vec<char>)
    ensures
        r@ == activity_text(items@),
{
    let mut out: Vec<char> = Vec::new();
    for k in 0..items.len()
        invariant
            out@ == activity_text(items@.take(k as int)),
    {
        assert(items@.take(k + 1).drop_last() =~= items@.take(k as int));
        let it = &items[k];
        if out.len() > 0 {
            out.push('\n');
        }
        push_str_chars(&mut out, it.target.as_str());
        if !str_is_empty(it.output.as_str()) {
            out.push('\n');
            let o = chars_of(it.output.as_str());
            let e = crate::text::trim_end_index(&o);
            let t = slice_chars(&o, 0, e);
            extend_chars(&mut out, &t);
        }
    }
    assert(items@.take(items@.len() as int) =~= items@);
    out
}

fn copy_model(m: &ModelItem) -> (r: ModelItem)
    ensures
        model_view(r) == model_view(*m),
{
    ModelItem { provider: m.provider.clone(), id: m.id.clone(), name: m.name.clone() }
}

impl App {
    /// Mark the current activity group as finished.
    pub fn finalize_activity(&mut self)
        ensures
            final(self).content@ == (match old(self).content@.last() {
                UiBlock::Activity(a) => if old(self).content@.len() > 0 {
                    old(self).content@.update(
                        old(self).content@.len() - 1,
                        UiBlock::Activity(ActivityBlock { done: true, ..a }),
                    )
                } else {
                    old(self).content@
                },
                _ => old(self).content@,
            }),
            *final(self) == (App { content: final(self).content, ..*old(self) }),
    {
        if self.content.len() == 0 {
            return;
        }
        let ghost before = self.content@;
        let last = self.content.pop().unwrap();
        match last {
            UiBlock::Activity(a) => {
                let mut a = a;
                a.done = true;
                self.content.push(UiBlock::Activity(a));
                assert(self.content@ =~= before.update(before.len() - 1, self.content@.last()));
            },
            other => {
                self.content.push(other);
                assert(self.content@ =~= before);
            },
        }
    }

    /// Which activity phase a tool belongs to.
    pub fn phase_for_tool(name: &str) -> (r: ActivityPhase)
        ensures
            r == (if name@ == "write_file"@ || name@ == "edit_file"@ || name@ == "apply_patch"@ {
                ActivityPhase::Modifying
            } else if name@ == "shell"@ || name@ == "task"@ || name@ == "todowrite"@ || name@ == "question"@ {
                ActivityPhase::Running
            } else {
                ActivityPhase::Investigating
            }),
    {
        let n = chars_of(name);
        if eq_str(&n, "write_file") || eq_str(&n, "edit_file") || eq_str(&n, "apply_patch") {
            ActivityPhase::Modifying
        } else if eq_str(&n, "shell") || eq_str(&n, "task") || eq_str(&n, "todowrite") || eq_str(&n, "question") {
            ActivityPhase::Running
        } else {
            ActivityPhase::Investigating
        }
    }

    /// Plain text of a conversation block, ready to copy.
    pub fn block_text(block: &UiBlock) -> (r: String)
        ensures
            r@ == block_text_spec(*block),
    {
        match block {
            UiBlock::User(t) => t.clone(),
            UiBlock::Assistant { text } => text.clone(),
            UiBlock::Reasoning { .. } => String::new(),
            UiBlock::Tool(tb) => {
                if str_is_empty(tb.output.as_str()) {
                    tb.target.clone()
                } else {
                    let mut out = chars_of(tb.target.as_str());
                    out.push('\n');
                    let o = chars_of(tb.output.as_str());
                    let e = crate::text::trim_end_index(&o);
                    let t = slice_chars(&o, 0, e);
                    extend_chars(&mut out, &t);
                    string_of(&out)
                }
            },
            UiBlock::Activity(a) => string_of(&activity_text_of(&a.items)),
            UiBlock::Diff { body, .. } => body.clone(),
            UiBlock::Error(t) => t.clone(),
        }
    }

    /// The text to copy: the selected timeline item, else the most recent
    /// assistant message, else the last non-empty block.
    pub fn copy_target_text(&self) -> (r: String)
        ensures
            r@ == copy_target_spec(self.content@, self.selected),
    {
        if let Some(i) = self.selected {
            if i < self.content.len() {
                let t = App::block_text(&self.content[i]);
                if !str_is_empty(t.as_str()) {
                    return t;
                }
            }
        }
        let n = self.content.len();
        let ghost no_sel = !(self.selected is Some && self.selected.unwrap() < self.content@.len()
            && block_text_spec(self.content@[self.selected.unwrap() as int]).len() > 0);
        assert(no_sel);
        let mut k = n;
        while k > 0
            invariant
                no_sel == !(self.selected is Some && self.selected.unwrap() < self.content@.len()
                    && block_text_spec(self.content@[self.selected.unwrap() as int]).len() > 0),
                no_sel,
                k <= n,
                n == self.content@.len(),
                last_assistant(self.content@, n as int) == last_assistant(self.content@, k as int),
            decreases k,
        {
            if let UiBlock::Assistant { text } = &self.content[k - 1] {
                if !str_is_empty(text.as_str()) {
                    return text.clone();
                }
            }
            k -= 1;
        }
        let mut k = n;
        while k > 0
            invariant
                no_sel == !(self.selected is Some && self.selected.unwrap() < self.content@.len()
                    && block_text_spec(self.content@[self.selected.unwrap() as int]).len() > 0),
                no_sel,
                k <= n,
                n == self.content@.len(),
                last_assistant(self.content@, n as int) is None,
                last_text(self.content@, n as int) == last_text(self.content@, k as int),
            decreases k,
        {
            let t = App::block_text(&self.content[k - 1]);
            if !str_is_empty(t.as_str()) {
                return t;
            }
            k -= 1;
        }
        String::new()
    }

    pub fn command_label(cmd: Command) -> (r: &'static str)
        ensures
            r@ == (match cmd {
                Command::NewSession => "new session   mulai sesi baru"@,
                Command::Sessions => "sessions      daftar & pindah sesi"@,
                Command::Models => "models        ganti model"@,
                Command::Agent => "agent         ganti mode/agent"@,
                Command::Themes => "themes        ganti tema warna"@,
                Command::Status => "status        info sesi / workspace"@,
                Command::Stats => "stats         hitungan pesan & token"@,
                Command::Help => "help          pintasan & slash command"@,
                Command::Clear => "clear         bersihkan layar"@,
                Command::Debug => "debug         info sesi"@,
                Command::Quit => "quit          keluar"@,
            }),
    {
        match cmd {
            Command::NewSession => "new session   mulai sesi baru",
            Command::Sessions => "sessions      daftar & pindah sesi",
            Command::Models => "models        ganti model",
            Command::Agent => "agent         ganti mode/agent",
            Command::Themes => "themes        ganti tema warna",
            Command::Status => "status        info sesi / workspace",
            Command::Stats => "stats         hitungan pesan & token",
            Command::Help => "help          pintasan & slash command",
            Command::Clear => "clear         bersihkan layar",
            Command::Debug => "debug         info sesi",
            Command::Quit => "quit          keluar",
        }
    }

    pub fn command_filter_text(cmd: Command) -> (r: &'static str)
        ensures
            r@ == command_filter_spec(cmd),
    {
        match cmd {
            Command::NewSession => "new session",
            Command::Sessions => "sessions",
            Command::Models => "models",
            Command::Agent => "agent",
            Command::Themes => "themes",
            Command::Status => "status",
            Command::Stats => "stats",
            Command::Help => "help",
            Command::Clear => "clear",
            Command::Debug => "debug",
            Command::Quit => "quit",
        }
    }

    /// Filtered commands for the palette, by current filter text.
    pub fn palette_commands(palette: &CommandPalette) -> (r: Vec<Command>)
        ensures
            r@ == palette_spec(*palette),
    {
        let f = lowercase(&chars_of(palette.filter.as_str()));
        let mut out: Vec<Command> = Vec::new();
        for k in 0..palette.commands.len()
            invariant
                f@ == lowercase_of(palette.filter@),
                out@ == (if f@.len() == 0 {
                    palette.commands@.take(k as int)
                } else {
                    commands_matching(palette.commands@.take(k as int), f@)
                }),
        {
            assert(palette.commands@.take(k + 1).drop_last() =~= palette.commands@.take(k as int));
            let c = palette.commands[k];
            if f.len() == 0 {
                out.push(c);
                assert(out@ =~= palette.commands@.take(k + 1));
            } else if crate::text::contains_chars(&chars_of(App::command_filter_text(c)), &f) {
                out.push(c);
            }
        }
        assert(palette.commands@.take(palette.commands@.len() as int) =~= palette.commands@);
        out
    }
}

/// Blocks whose reasoning is still open.
pub open spec fn open_reasoning(b: UiBlock) -> bool {
    b matches UiBlock::Reasoning { done: None, .. }
}

/// `a` is `b` with an open reasoning block closed (same start, a duration
/// filled in); any other block is kept as it is.
pub open spec fn closed_block(b: UiBlock, a: UiBlock) -> bool {
    if open_reasoning(b) {
        match (b, a) {
            (UiBlock::Reasoning { started: s0, .. }, UiBlock::Reasoning { started, done }) => started == s0
                && done is Some,
            _ => false,
        }
    } else {
        a == b
    }
}

/// The same timeline with every open reasoning block closed.
pub open spec fn reasoning_closed(before: Seq<UiBlock>, after: Seq<UiBlock>) -> bool {
    &&& after.len() == before.len()
    &&& forall|i: int| 0 <= i < before.len() ==> closed_block(#[trigger] before[i], after[i])
}

impl App {
    pub fn clear_view(&mut self)
        requires
            old(self).wf(),
        ensures
            final(self).wf(),
            final(self).content@.len() == 0,
            cleared(old(self).input, final(self).input),
            final(self).suggestions@.len() == 0,
            final(self).pastes@.len() == 0,
            final(self).expanded@ == Set::<usize>::empty(),
            *final(self) == (App {
                content: final(self).content,
                input: final(self).input,
                suggestions: final(self).suggestions,
                pastes: final(self).pastes,
                mention_picker: None,
                selected: None,
                expanded: final(self).expanded,
                scroll: 0,
                auto_scroll: true,
                ..*old(self)
            }),
    {
        self.content.clear();
        self.input.clear();
        self.suggestions.clear();
        self.pastes.clear();
        self.mention_picker = None;
        self.selected = None;
        self.expanded.clear();
        self.scroll = 0;
        self.auto_scroll = true;
    }

    pub fn open_mode_picker(&mut self)
        requires
            old(self).wf(),
        ensures
            final(self).wf(),
            cleared(old(self).input, final(self).input),
            final(self).suggestions@.len() == 0,
            final(self).mode_picker matches Some(p) && p.selected == 0 && p.modes@.len() == 3
                && p.modes@[0].0 == AgentMode::Plan && p.modes@[1].0 == AgentMode::Build
                && p.modes@[2].0 == AgentMode::Auto
                && p.modes@[0].1@ == "Analyze and create a plan"@
                && p.modes@[1].1@ == "Implement changes"@
                && p.modes@[2].1@ == "Execute autonomously"@,
            *final(self) == (App {
                input: final(self).input,
                suggestions: final(self).suggestions,
                mode_picker: final(self).mode_picker,
                ..*old(self)
            }),
    {
        self.input.clear();
        self.suggestions.clear();
        let mut modes: Vec<(AgentMode, &'static str)> = Vec::new();
        modes.push((AgentMode::Plan, AgentMode::Plan.description()));
        modes.push((AgentMode::Build, AgentMode::Build.description()));
        modes.push((AgentMode::Auto, AgentMode::Auto.description()));
        self.mode_picker = Some(ModePicker { modes, selected: 0 });
    }

    /// Open the theme selector on the theme named `current`.
    pub fn open_theme_picker(&mut self, current: &str)
        requires
            old(self).wf(),
        ensures
            final(self).wf(),
            cleared(old(self).input, final(self).input),
            final(self).suggestions@.len() == 0,
            final(self).theme_picker matches Some(p) && crate::goal::strs(p.themes@)
                == crate::tui::theme::theme_names() && p.selected < 3
                && (crate::tui::theme::theme_names().contains(current@) ==> crate::tui::theme::theme_names()[p.selected as int] == current@)
                && (!crate::tui::theme::theme_names().contains(current@) ==> p.selected == 0),
            *final(self) == (App {
                input: final(self).input,
                suggestions: final(self).suggestions,
                theme_picker: final(self).theme_picker,
                ..*old(self)
            }),
    {
        self.input.clear();
        self.suggestions.clear();
        let all = crate::tui::theme::Theme::all();
        let cur = chars_of(current);
        let mut themes: Vec<String> = Vec::new();
        let mut selected: usize = 0;
        let mut found = false;
        for k in 0..all.len()
            invariant
                all@.len() == 3,
                forall|i: int| 0 <= i < 3 ==> (#[trigger] all@[i]).name@ == crate::tui::theme::theme_names()[i],
                cur@ == current@,
                crate::goal::strs(themes@) =~= crate::tui::theme::theme_names().take(k as int),
                found ==> selected < k && crate::tui::theme::theme_names()[selected as int] == current@,
                !found ==> selected == 0 && forall|i: int| 0 <= i < k ==> crate::tui::theme::theme_names()[i] != current@,
        {
            let ghost prev = crate::goal::strs(themes@);
            themes.push(String::from_str(all[k].name));
            assert(crate::goal::strs(themes@) =~= prev.push(crate::tui::theme::theme_names()[k as int]));
            if !found && eq_str(&cur, all[k].name) {
                selected = k;
                found = true;
            }
        }
        proof {
            if !found && crate::tui::theme::theme_names().contains(current@) {
                let i = choose|i: int| 0 <= i < 3 && crate::tui::theme::theme_names()[i] == current@;
                assert(false);
            }
        }
        assert(crate::tui::theme::theme_names().take(3) =~= crate::tui::theme::theme_names());
        self.theme_picker = Some(ThemePicker { themes, selected });
    }

    pub fn open_model_picker(&mut self)
        requires
            old(self).wf(),
        ensures
            final(self).wf(),
            cleared(old(self).input, final(self).input),
            final(self).suggestions@.len() == 0,
            final(self).model_picker matches Some(p) && p.selected == 0 && models_view(p.models@) == if old(self).status.models@.len() == 0 {
                seq![(old(self).status.provider@, old(self).status.model@, old(self).status.model@)]
            } else {
                models_view(old(self).status.models@)
            },
            *final(self) == (App {
                input: final(self).input,
                suggestions: final(self).suggestions,
                model_picker: final(self).model_picker,
                ..*old(self)
            }),
    {
        self.input.clear();
        self.suggestions.clear();
        let mut models: Vec<ModelItem> = Vec::new();
        if self.status.models.len() == 0 {
            models.push(ModelItem {
                provider: self.status.provider.clone(),
                id: self.status.model.clone(),
                name: self.status.model.clone(),
            });
            assert(models_view(models@) =~= seq![(self.status.provider@, self.status.model@, self.status.model@)]);
        } else {
            for k in 0..self.status.models.len()
                invariant
                    models_view(models@) =~= models_view(self.status.models@).take(k as int),
            {
                let ghost prev = models_view(models@);
                models.push(copy_model(&self.status.models[k]));
                assert(models_view(models@) =~= prev.push(model_view(self.status.models@[k as int])));
            }
            assert(models_view(self.status.models@).take(self.status.models@.len() as int) =~= models_view(self.status.models@));
        }
        self.model_picker = Some(ModelPicker { models, selected: 0 });
    }

    pub fn open_command_palette(&mut self)
        requires
            old(self).wf(),
        ensures
            palette_opened(*old(self), *final(self)),
    {
        self.input.clear();
        self.suggestions.clear();
        let commands = vec![
            Command::NewSession,
            Command::Sessions,
            Command::Models,
            Command::Agent,
            Command::Themes,
            Command::Status,
            Command::Stats,
            Command::Help,
            Command::Clear,
            Command::Debug,
            Command::Quit,
        ];
        self.command_palette = Some(CommandPalette { commands, selected: 0, filter: String::new() });
    }

    pub fn open_agent_picker(&mut self)
        requires
            old(self).wf(),
        ensures
            final(self).wf(),
            cleared(old(self).input, final(self).input),
            final(self).suggestions@.len() == 0,
            final(self).agent_picker matches Some(p) && p.selected == 0
                && pairs_view(p.agents@) == seq![("default"@, Seq::<char>::empty())] + pairs_view(old(self).status.agents@),
            *final(self) == (App {
                input: final(self).input,
                suggestions: final(self).suggestions,
                agent_picker: final(self).agent_picker,
                ..*old(self)
            }),
    {
        self.input.clear();
        self.suggestions.clear();
        let mut agents: Vec<(String, String)> = Vec::new();
        agents.push((String::from_str("default"), String::new()));
        for k in 0..self.status.agents.len()
            invariant
                pairs_view(agents@) =~= seq![("default"@, Seq::<char>::empty())] + pairs_view(self.status.agents@).take(k as int),
        {
            let ghost prev = pairs_view(agents@);
            let (n, m) = (&self.status.agents[k].0, &self.status.agents[k].1);
            agents.push((n.clone(), m.clone()));
            assert(pairs_view(agents@) =~= prev.push(pairs_view(self.status.agents@)[k as int]));
        }
        assert(pairs_view(self.status.agents@).take(self.status.agents@.len() as int) =~= pairs_view(self.status.agents@));
        self.agent_picker = Some(AgentPicker { agents, selected: 0 });
    }

    /// Open the session picker over `sessions` (the saved sessions, newest first).
    pub fn open_session_picker(&mut self, sessions: Vec<SessionItem>)
        requires
            old(self).wf(),
        ensures
            final(self).wf(),
            cleared(old(self).input, final(self).input),
            final(self).suggestions@.len() == 0,
            final(self).session_picker matches Some(p) && p.selected == 0 && p.filter@ == Seq::<char>::empty()
                && p.sessions == sessions,
            *final(self) == (App {
                input: final(self).input,
                suggestions: final(self).suggestions,
                session_picker: final(self).session_picker,
                ..*old(self)
            }),
    {
        self.input.clear();
        self.suggestions.clear();
        self.session_picker = Some(SessionPicker { sessions, selected: 0, filter: String::new() });
    }

    /// Start or continue a reasoning status block; true when a new one was
    /// pushed (reasoning just began).
    pub fn begin_or_continue_reasoning(&mut self) -> (r: bool)
        ensures
            r == !(old(self).content@.len() > 0 && open_reasoning(old(self).content@.last())),
            !r ==> *final(self) == *old(self),
            r ==> final(self).content@.len() == old(self).content@.len() + 1
                && final(self).content@.take(old(self).content@.len() as int) == old(self).content@
                && open_reasoning(final(self).content@.last())
                && *final(self) == (App { content: final(self).content, ..*old(self) }),
    {
        let n = self.content.len();
        if n > 0 {
            if let UiBlock::Reasoning { done: None, .. } = &self.content[n - 1] {
                return false;
            }
        }
        self.content.push(UiBlock::Reasoning { started: instant_now(), done: None });
        assert(self.content@.take(n as int) =~= old(self).content@);
        true
    }

    /// Mark every open reasoning block as finished.
    pub fn finalize_reasoning(&mut self)
        ensures
            reasoning_closed(old(self).content@, final(self).content@),
            *final(self) == (App { content: final(self).content, ..*old(self) }),
    {
        let n = self.content.len();
        let ghost before = self.content@;
        let mut out: Vec<UiBlock> = Vec::new();
        let mut old_content: Vec<UiBlock> = Vec::new();
        std::mem::swap(&mut old_content, &mut self.content);
        let mut k: usize = 0;
        let mut rest = old_content;
        assert(rest@ =~= before.skip(0));
        while rest.len() > 0
            invariant
                k + rest@.len() == n,
                n == before.len(),
                rest@ == before.skip(k as int),
                out@.len() == k,
                forall|i: int| 0 <= i < k ==> closed_block(#[trigger] before[i], out@[i]),
                *self == (App { content: self.content, ..*old(self) }),
            decreases rest.len(),
        {
            let b = rest.remove(0);
            assert(b == before[k as int]);
            assert(rest@ =~= before.skip(k + 1));
            let nb = match b {
                UiBlock::Reasoning { started, done: None } => {
                    let d = since(instant_now(), started);
                    UiBlock::Reasoning { started, done: Some(d) }
                },
                other => other,
            };
            out.push(nb);
            k += 1;
        }
        self.content = out;
    }
}

/// The slash commands offered while typing `/`.
pub open spec fn slash_commands() -> Seq<Seq<char>> {
    seq![
        "/models"@,
        "/sessions"@,
        "/new"@,
        "/clear"@,
        "/status"@,
        "/help"@,
        "/compact"@,
        "/fork"@,
        "/rename"@,
        "/debug"@,
        "/quit"@,
        "/exit"@,
    ]
}

/// The commands that extend the typed text or that it extends.
pub open spec fn command_hits(cmds: Seq<Seq<char>>, text: Seq<char>) -> Seq<Seq<char>>
    decreases cmds.len(),
{
    if cmds.len() == 0 {
        seq![]
    } else {
        let prev = command_hits(cmds.drop_last(), text);
        let c = cmds.last();
        if starts_with(c, text) || starts_with(text, c) {
            prev.push(c + "  <enter>"@)
        } else {
            prev
        }
    }
}

/// The model lines: a header before each run of one provider, then each id.
pub open spec fn model_lines(models: Seq<ModelItem>) -> (Seq<Seq<char>>, Seq<char>)
    decreases models.len(),
{
    if models.len() == 0 {
        (seq![], seq![])
    } else {
        let (prev, last_p) = model_lines(models.drop_last());
        let m = models.last();
        let a = if m.provider@ != last_p {
            prev.push("  ── "@ + m.provider@ + " ──"@)
        } else {
            prev
        };
        (a.push("    "@ + m.id@), m.provider@)
    }
}

/// The suggestions for the (trimmed) composer text.
pub open spec fn suggestions_spec(text: Seq<char>, status: StatusInfo) -> Seq<Seq<char>> {
    if !starts_with(text, "/"@) {
        seq![]
    } else {
        let base = command_hits(slash_commands(), text);
        if starts_with(text, "/models"@) {
            if status.models@.len() == 0 {
                base.push("  model: "@ + status.model@)
            } else {
                base + model_lines(status.models@).0
            }
        } else {
            base
        }
    }
}

fn push_string(out: &mut Vec<String>, v: &Vec<char>)
    ensures
        crate::goal::strs(final(out)@) == crate::goal::strs(old(out)@).push(v@),
{
    out.push(string_of(v));
    assert(crate::goal::strs(final(out)@) =~= crate::goal::strs(old(out)@).push(v@));
}

/// What the composer's scroll becomes after `scroll_to_cursor(5)`.
pub open spec fn scrolled(v: EditorView) -> EditorView {
    let c = v.cursor.row as int;
    let s = v.scroll_row as int;
    EditorView {
        scroll_row: (if c < s {
            c
        } else if c >= s + 5 {
            c + 1 - 5
        } else {
            s
        }) as nat,
        ..v
    }
}

/// The composer after loading `text` and scrolling to the cursor.
pub open spec fn loaded(v: EditorView, text: Seq<char>) -> EditorView {
    scrolled(
        EditorView {
            lines: lines_of(text),
            cursor: crate::tui::editor::cursor_at(0, 0),
            selection: None,
            scroll_row: 0,
            undo: seq![],
            redo: seq![],
            clipboard: v.clipboard,
        },
    )
}

impl App {
    /// Rebuild the command/model suggestion list from the current input.
    pub fn update_suggestions(&mut self)
        ensures
            crate::goal::strs(final(self).suggestions@) == suggestions_spec(
                crate::text::trim_spec(text_spec(old(self).input@.lines)),
                old(self).status,
            ),
            *final(self) == (App { suggestions: final(self).suggestions, ..*old(self) }),
    {
        let t = self.input.text();
        let text = crate::text::trim_chars(&chars_of(t.as_str()));
        self.suggestions.clear();
        let slash = chars_of("/");
        if !crate::text::starts_with_chars(&text, &slash) {
            assert(crate::goal::strs(self.suggestions@) =~= Seq::<Seq<char>>::empty());
            return;
        }
        let cmds: [&str; 12] = [
            "/models",
            "/sessions",
            "/new",
            "/clear",
            "/status",
            "/help",
            "/compact",
            "/fork",
            "/rename",
            "/debug",
            "/quit",
            "/exit",
        ];
        assert(crate::goal::strs(self.suggestions@) =~= Seq::<Seq<char>>::empty());
        for k in 0..12
            invariant
                forall|i: int| 0 <= i < 12 ==> (#[trigger] cmds@[i])@ == slash_commands()[i],
                crate::goal::strs(self.suggestions@) == command_hits(slash_commands().take(k as int), text@),
                *self == (App { suggestions: self.suggestions, ..*old(self) }),
        {
            assert(slash_commands().take(k + 1).drop_last() =~= slash_commands().take(k as int));
            let c = chars_of(cmds[k]);
            if crate::text::starts_with_chars(&c, &text) || crate::text::starts_with_chars(&text, &c) {
                let mut line = c;
                push_str_chars(&mut line, "  <enter>");
                push_string(&mut self.suggestions, &line);
            }
        }
        assert(slash_commands().take(12) =~= slash_commands());
        if crate::text::starts_with_chars(&text, &chars_of("/models")) {
            if self.status.models.len() == 0 {
                let mut line = chars_of("  model: ");
                push_str_chars(&mut line, self.status.model.as_str());
                push_string(&mut self.suggestions, &line);
            } else {
                let ghost base = crate::goal::strs(self.suggestions@);
                let mut last_provider: Vec<char> = Vec::new();
                let nm = self.status.models.len();
                for k in 0..nm
                    invariant
                        nm == self.status.models@.len(),
                        crate::goal::strs(self.suggestions@) == base + model_lines(self.status.models@.take(k as int)).0,
                        last_provider@ == model_lines(self.status.models@.take(k as int)).1,
                        *self == (App { suggestions: self.suggestions, ..*old(self) }),
                {
                    assert(self.status.models@.take(k + 1).drop_last() =~= self.status.models@.take(k as int));
                    let m = &self.status.models[k];
                    let p = chars_of(m.provider.as_str());
                    let ghost before = crate::goal::strs(self.suggestions@);
                    if !crate::text::chars_eq(&p, &last_provider) {
                        let mut line = chars_of("  ── ");
                        push_str_chars(&mut line, m.provider.as_str());
                        push_str_chars(&mut line, " ──");
                        push_string(&mut self.suggestions, &line);
                        last_provider = p;
                    }
                    let mut line = chars_of("    ");
                    push_str_chars(&mut line, m.id.as_str());
                    push_string(&mut self.suggestions, &line);
                    last_provider = chars_of(m.provider.as_str());
                }
                assert(self.status.models@.take(self.status.models@.len() as int) =~= self.status.models@);
            }
        }
    }

    /// Recall the previous prompt from history (keeping the draft when
    /// leaving it).
    pub fn history_prev(&mut self)
        requires
            old(self).wf(),
            old(self).history_idx matches Some(i) ==> i < old(self).history@.len(),
        ensures
            history_prev_post(*old(self), *final(self)),
    {
        if self.history.len() == 0 {
            return;
        }
        if self.history_idx.is_none() {
            self.draft = self.input.text();
        }
        let idx = match self.history_idx {
            Some(i) => if i > 0 {
                i - 1
            } else {
                self.history.len() - 1
            },
            None => self.history.len() - 1,
        };
        self.history_idx = Some(idx);
        let h = self.history[idx].clone();
        self.input.load_text(h.as_str());
        self.input.scroll_to_cursor(5);
    }

    /// Recall the next prompt from history, or the draft past the newest.
    pub fn history_next(&mut self)
        requires
            old(self).wf(),
        ensures
            history_next_post(*old(self), *final(self)),
    {
        match self.history_idx {
            Some(i) if i < self.history.len() && i + 1 < self.history.len() => {
                let idx = i + 1;
                self.history_idx = Some(idx);
                let h = self.history[idx].clone();
                self.input.load_text(h.as_str());
                self.input.scroll_to_cursor(5);
            },
            _ => {
                self.history_idx = None;
                let d = self.draft.clone();
                self.input.load_text(d.as_str());
                self.input.scroll_to_cursor(5);
            },
        }
    }
}

pub open spec fn placeholders(p: Seq<PasteEntry>) -> Seq<Seq<char>> {
    Seq::new(p.len(), |i: int| p[i].placeholder@)
}

/// `<base> #<n>`.
pub open spec fn numbered(base: Seq<char>, n: nat) -> Seq<char> {
    base + " #"@ + decimal(n)
}

/// A placeholder not yet in use: `base` itself, else `base #n` with the
/// smallest `n` from 2 on that is free.
pub open spec fn unique_placeholder_ok(base: Seq<char>, pl: Seq<Seq<char>>, r: Seq<char>) -> bool {
    if !pl.contains(base) {
        r == base
    } else {
        exists|n: nat|
            n >= 2 && r == numbered(base, n) && !pl.contains(r) && forall|m: nat|
                2 <= m < n ==> pl.contains(#[trigger] numbered(base, m))
    }
}

proof fn lemma_decimal_len(n: nat)
    ensures
        decimal(n).len() >= 1,
        n < 10 <==> decimal(n).len() == 1,
    decreases n,
{
    if n >= 10 {
        lemma_decimal_len(n / 10);
    }
}

proof fn lemma_decimal_injective(a: nat, b: nat)
    requires
        decimal(a) == decimal(b),
    ensures
        a == b,
    decreases a,
{
    lemma_decimal_len(a);
    lemma_decimal_len(b);
    if a < 10 && b < 10 {
        assert(decimal(a)[0] == crate::text::digit_char(a));
        assert(decimal(b)[0] == crate::text::digit_char(b));
    } else if a >= 10 && b >= 10 {
        assert(decimal(a).last() == crate::text::digit_char(a % 10));
        assert(decimal(b).last() == crate::text::digit_char(b % 10));
        assert(decimal(a).drop_last() == decimal(a / 10));
        assert(decimal(b).drop_last() == decimal(b / 10));
        lemma_decimal_injective(a / 10, b / 10);
    }
}

/// Numbered placeholders in use between 2 and `n` cannot outnumber the pastes.
proof fn lemma_numbered_bound(base: Seq<char>, pl: Seq<Seq<char>>, n: nat)
    requires
        n >= 2,
        forall|m: nat| 2 <= m < n ==> pl.contains(#[trigger] numbered(base, m)),
    ensures
        n - 2 <= pl.len(),
{
    broadcast use vstd::seq_lib::seq_to_set_is_finite;
    reveal_strlit(" #");
    let x = vstd::set_lib::set_int_range(2, n as int);
    vstd::set_lib::lemma_int_range(2, n as int);
    let f = |m: int| numbered(base, m as nat);
    assert forall|a: int, b: int| x.contains(a) && x.contains(b) && #[trigger] f(a) == #[trigger] f(b) implies a == b by {
        assert(f(a).skip(base.len() as int + 2) =~= decimal(a as nat));
        assert(f(b).skip(base.len() as int + 2) =~= decimal(b as nat));
        lemma_decimal_injective(a as nat, b as nat);
    }
    assert(vstd::relations::injective_on(f, x));
    let y = x.map(f);
    vstd::set_lib::lemma_map_size(x, y, f);
    assert forall|t: Seq<char>| y.contains(t) implies pl.to_set().contains(t) by {
        let m = choose|m: int| x.contains(m) && f(m) == t;
        assert(pl.contains(numbered(base, m as nat)));
    }
    pl.lemma_cardinality_of_set();
    vstd::set_lib::lemma_len_subset(y, pl.to_set());
}

fn placeholder_taken(pastes: &Vec<PasteEntry>, s: &Vec<char>) -> (r: bool)
    ensures
        r == placeholders(pastes@).contains(s@),
{
    for i in 0..pastes.len()
        invariant
            forall|k: int| 0 <= k < i ==> placeholders(pastes@)[k] != s@,
    {
        if eq_str(s, pastes[i].placeholder.as_str()) {
            assert(placeholders(pastes@)[i as int] == s@);
            return true;
        }
    }
    false
}

/// A placeholder for `base` that no stored paste uses yet.
pub fn unique_placeholder(base: &str, pastes: &Vec<PasteEntry>) -> (r: String)
    requires
        pastes@.len() + 2 <= usize::MAX,
    ensures
        unique_placeholder_ok(base@, placeholders(pastes@), r@),
{
    let b = chars_of(base);
    if !placeholder_taken(pastes, &b) {
        return String::from_str(base);
    }
    let ghost pl = placeholders(pastes@);
    let mut n: usize = 2;
    loop
        invariant
            b@ == base@,
            pl == placeholders(pastes@),
            pl.contains(base@),
            pastes@.len() + 2 <= usize::MAX,
            2 <= n <= pl.len() + 2,
            forall|m: nat| 2 <= m < n ==> pl.contains(#[trigger] numbered(base@, m)),
        decreases pl.len() + 2 - n,
    {
        let mut c = chars_of(base);
        push_str_chars(&mut c, " #");
        push_decimal(&mut c, n);
        if !placeholder_taken(pastes, &c) {
            assert(c@ == numbered(base@, n as nat));
            return string_of(&c);
        }
        proof {
            assert(forall|m: nat| 2 <= m < n + 1 ==> pl.contains(#[trigger] numbered(base@, m)));
            lemma_numbered_bound(base@, pl, (n + 1) as nat);
        }
        n += 1;
    }
}

/// The paste entry whose placeholder is `line`.
pub open spec fn is_placeholder(pastes: Seq<PasteEntry>, line: Seq<char>) -> bool {
    placeholders(pastes).contains(line)
}

impl App {
    /// True if the given line is a paste placeholder (for styling).
    pub fn is_paste_placeholder(&self, line: &str) -> (r: bool)
        ensures
            r == is_placeholder(self.pastes@, line@),
    {
        placeholder_taken(&self.pastes, &chars_of(line))
    }
}

/// The placeholder line that stands for a collapsed paste.
pub open spec fn paste_base(lines: nat, chars: nat) -> Seq<char> {
    "[Pasted text · "@ + decimal(lines) + " lines · "@ + human_count_spec(chars) + " chars]"@
}

/// Pasted text with Windows line ends normalized.
pub open spec fn normalized_paste(text: Seq<char>) -> Seq<char> {
    crate::web::replace_spec(text, "\r\n"@, "\n"@)
}

/// Whether a paste is small enough to insert directly.
pub open spec fn small_paste(t: Seq<char>) -> bool {
    str_lines(t).len() <= PASTE_DIRECT_MAX_LINES && t.len() <= PASTE_DIRECT_MAX_CHARS
}

/// The composer's text after an edit, as the suggestions see it.
pub open spec fn composer_suggestions(app: App) -> Seq<Seq<char>> {
    suggestions_spec(crate::text::trim_spec(text_spec(app.input@.lines)), app.status)
}

/// `hs` without the entries equal to `t`, in order.
pub open spec fn without(hs: Seq<Seq<char>>, t: Seq<char>) -> Seq<Seq<char>>
    decreases hs.len(),
{
    if hs.len() == 0 {
        seq![]
    } else if hs.last() == t {
        without(hs.drop_last(), t)
    } else {
        without(hs.drop_last(), t).push(hs.last())
    }
}

/// The mentions of a prompt as one line: `@path` for each, two spaces apart.
pub open spec fn mention_line(ms: Seq<(nat, nat, Seq<char>)>) -> Seq<char> {
    crate::web::join_seqs(Seq::new(ms.len(), |k: int| seq!['@'] + ms[k].2), "  "@)
}

impl App {
    /// Store a large paste aside and insert its placeholder line.
    fn collapse_paste(&mut self, ts: String, lines: usize, chars: usize)
        requires
            old(self).wf(),
            old(self).pastes@.len() + 3 <= usize::MAX,
        ensures
            final(self).wf(),
            ({
                let e1 = if old(self).input@.cursor.col > 0 {
                    old(self).input@.apply(EditorAction::InsertNewline)
                } else {
                    old(self).input@
                };
                let ph = final(self).pastes@.last().placeholder@;
                &&& final(self).pastes@.len() == old(self).pastes@.len() + 1
                &&& final(self).pastes@.take(old(self).pastes@.len() as int) == old(self).pastes@
                &&& final(self).pastes@.last().content@ == ts@
                &&& unique_placeholder_ok(paste_base(lines as nat, chars as nat), placeholders(old(self).pastes@), ph)
                &&& final(self).input@ == e1.insert_plain(ph)
                &&& final(self).toast matches Some(m) && m.0@ == "Pasted content collapsed. Alt+P to expand."@
            }),
            *final(self) == (App {
                input: final(self).input,
                pastes: final(self).pastes,
                toast: final(self).toast,
                ..*old(self)
            }),
    {
        if self.input.cursor().col > 0 {
            self.input.apply(EditorAction::InsertNewline);
        }
        let mut base = chars_of("[Pasted text · ");
        push_decimal(&mut base, lines);
        push_str_chars(&mut base, " lines · ");
        let hc = human_count(chars);
        push_str_chars(&mut base, hc.as_str());
        push_str_chars(&mut base, " chars]");
        let bs = string_of(&base);
        let placeholder = unique_placeholder(bs.as_str(), &self.pastes);
        let ph2 = placeholder.clone();
        let ghost before = self.pastes@;
        self.pastes.push(PasteEntry { placeholder: ph2, content: ts });
        assert(self.pastes@.take(before.len() as int) =~= before);
        self.input.apply(EditorAction::Paste(placeholder));
        self.show_toast("Pasted content collapsed. Alt+P to expand.");
    }

    /// Handle a bracketed paste as one logical operation: small pastes are
    /// inserted directly; large ones become a compact placeholder line whose
    /// content is kept aside.
    pub fn handle_paste(&mut self, text: &str)
        requires
            old(self).wf(),
            old(self).pastes@.len() + 3 <= usize::MAX,
        ensures
            final(self).wf(),
            ({
                let t = normalized_paste(text@);
                if small_paste(t) {
                    &&& final(self).input@ == old(self).input@.insert_plain(t)
                    &&& final(self).pastes == old(self).pastes
                    &&& final(self).toast == old(self).toast
                } else {
                    let e1 = if old(self).input@.cursor.col > 0 {
                        old(self).input@.apply(EditorAction::InsertNewline)
                    } else {
                        old(self).input@
                    };
                    let ph = final(self).pastes@.last().placeholder@;
                    &&& final(self).pastes@.len() == old(self).pastes@.len() + 1
                    &&& final(self).pastes@.take(old(self).pastes@.len() as int) == old(self).pastes@
                    &&& final(self).pastes@.last().content@ == t
                    &&& unique_placeholder_ok(
                        paste_base(str_lines(t).len(), t.len()),
                        placeholders(old(self).pastes@),
                        ph,
                    )
                    &&& final(self).input@ == e1.insert_plain(ph)
                    &&& final(self).toast matches Some(m) && m.0@ == "Pasted content collapsed. Alt+P to expand."@
                }
            }),
            crate::goal::strs(final(self).suggestions@) == composer_suggestions(*final(self)),
            *final(self) == (App {
                input: final(self).input,
                pastes: final(self).pastes,
                toast: final(self).toast,
                suggestions: final(self).suggestions,
                ..*old(self)
            }),
    {
        proof {
            reveal_strlit("\r\n");
        }
        let t = crate::web::replace_chars(&chars_of(text), "\r\n", "\n");
        let ts = string_of(&t);
        let lines = str_lines_of(&t).len();
        let chars = t.len();
        if lines <= PASTE_DIRECT_MAX_LINES && chars <= PASTE_DIRECT_MAX_CHARS {
            self.input.apply(EditorAction::Paste(ts));
        } else {
            self.collapse_paste(ts, lines, chars);
        }
        self.update_suggestions();
    }

    /// Expand a paste placeholder under the cursor into its full content.
    pub fn expand_paste_at_cursor(&mut self) -> (r: bool)
        requires
            old(self).wf(),
            old(self).input@.selection is None,
        ensures
            final(self).wf(),
            paste_expand_post(*old(self), *final(self), r),
    {
        let row = self.input.cursor().row;
        let gs = self.input.line_graphemes(row);
        let mut line: Vec<char> = Vec::new();
        let ghost l = self.input@.lines[row as int];
        for j in 0..gs.len()
            invariant
                gs@.len() == l.len(),
                forall|i: int| 0 <= i < gs@.len() ==> (#[trigger] gs@[i])@ == l[i],
                line@ == l.take(j as int).flatten(),
        {
            push_str_chars(&mut line, gs[j].as_str());
            proof {
                assert(l.take(j + 1) =~= l.take(j as int).push(l[j as int]));
                l.take(j as int).lemma_flatten_push(l[j as int]);
            }
        }
        assert(l.take(gs@.len() as int) =~= l);
        match paste_for_line(self.pastes.as_slice(), &line) {
            Some(i) => {
                let content = self.pastes[i].content.clone();
                self.input.replace_current_line(content.as_str());
                self.update_suggestions();
                true
            },
            None => false,
        }
    }

    /// Take the typed input as a prompt (paste placeholders expanded,
    /// trimmed) and mark the agent as busy. The prompt goes to the front of
    /// the history, the composer is emptied, and the prompt (and a line of
    /// its @-mentions, if any) joins the timeline. Nothing happens to an
    /// empty prompt. Saving the prompt to the history file is the caller's.
    #[verifier::rlimit(40)]
    pub fn submit(&mut self) -> (r: Option<String>)
        requires
            old(self).wf(),
            !old(self).auto_scroll ==> old(self).pending + 2 <= usize::MAX,
        ensures
            submit_post(*old(self), *final(self), r),
    {
        let text = self.input.text();
        let expanded = expand_pastes(text.as_str(), self.pastes.as_slice());
        let trimmed = crate::text::trim_chars(&chars_of(expanded.as_str()));
        if trimmed.len() == 0 {
            return None;
        }
        let ts = string_of(&trimmed);
        let ghost t = trimmed@;
        let ghost hv = crate::goal::strs(self.history@);
        let mut hist: Vec<String> = Vec::new();
        hist.push(string_of(&trimmed));
        assert(crate::goal::strs(hist@) =~= seq![t] + without(hv.take(0), t));
        let nh = self.history.len();
        for k in 0..nh
            invariant
                nh == self.history@.len(),
                hv == crate::goal::strs(self.history@),
                crate::goal::strs(hist@) == seq![t] + without(hv.take(k as int), t),
                t == trimmed@,
        {
            proof {
                let tk = hv.take(k + 1);
                assert(tk.drop_last() =~= hv.take(k as int));
            }
            let h = &self.history[k];
            if !crate::text::chars_eq(&chars_of(h.as_str()), &trimmed) {
                let ghost prev = crate::goal::strs(hist@);
                hist.push(h.clone());
                assert(crate::goal::strs(hist@) =~= prev.push(h@));
                assert(seq![t] + without(hv.take(k as int), t).push(h@) =~= (seq![t] + without(hv.take(k as int), t)).push(h@));
            }
        }
        assert(hv.take(nh as int) =~= hv);
        self.history = hist;
        self.history_idx = None;
        self.draft = String::new();
        self.input.clear();
        self.suggestions.clear();
        self.pastes.clear();
        self.mention_picker = None;
        let ghost n = self.content@.len();
        self.push(UiBlock::User(string_of(&trimmed)));
        let mentions = crate::mentions::parse_mentions(ts.as_str());
        let ghost ms = Seq::new(mentions@.len(), |k: int| mentions@[k].view_tuple());
        if mentions.len() > 0 {
            let mut target: Vec<char> = Vec::new();
            let ghost parts = Seq::new(ms.len(), |k: int| seq!['@'] + ms[k].2);
            for k in 0..mentions.len()
                invariant
                    ms == Seq::new(mentions@.len(), |k: int| mentions@[k].view_tuple()),
                    parts == Seq::new(ms.len(), |k: int| seq!['@'] + ms[k].2),
                    k <= mentions@.len(),
                    target@ == crate::web::join_seqs(parts.take(k as int), "  "@),
            {
                proof {
                    reveal_strlit("  ");
                }
                let ghost prev = target@;
                if k > 0 {
                    push_str_chars(&mut target, "  ");
                }
                target.push('@');
                push_str_chars(&mut target, mentions[k].path.as_str());
                proof {
                    let tk = parts.take(k + 1);
                    assert(tk.drop_last() =~= parts.take(k as int));
                    if k == 0 {
                        assert(tk.len() == 1);
                        assert(target@ =~= tk[0]);
                    } else {
                        assert(target@ =~= prev + "  "@ + tk.last());
                    }
                }
            }
            assert(parts.take(mentions@.len() as int) =~= parts);
            self.push(UiBlock::Tool(ToolBlock {
                kind: ToolKind::Other,
                target: string_of(&target),
                state: ToolState::Success,
                output: String::new(),
            }));
        }
        self.busy = true;
        self.last_error = None;
        proof {
            let o = *old(self);
            let f = *self;
            let t0 = crate::text::trim_spec(expand_pastes_spec(text_spec(o.input@.lines), o.pastes@));
            assert(t0 == t);
            assert(f.wf());
            assert(crate::goal::strs(f.history@) == seq![t] + without(crate::goal::strs(o.history@), t));
            assert(cleared(o.input, f.input));
            assert(f.content@.take(n as int) == o.content@);
            assert(f.content@[n as int] matches UiBlock::User(u) && u@ == t);
        }
        Some(ts)
    }
}

/// What a timeline block shows, as plain values.
pub enum BlockV {
    User(Seq<char>),
    Assistant(Seq<char>),
    /// A reasoning block: whether it is finished.
    Reasoning(bool),
    Tool(ToolKind, Seq<char>, ToolState, Seq<char>),
    Activity,
    Diff(Seq<char>, Seq<char>),
    Error(Seq<char>),
}

pub open spec fn block_view(b: UiBlock) -> BlockV {
    match b {
        UiBlock::User(t) => BlockV::User(t@),
        UiBlock::Assistant { text } => BlockV::Assistant(text@),
        UiBlock::Reasoning { done, .. } => BlockV::Reasoning(done is Some),
        UiBlock::Tool(tb) => BlockV::Tool(tb.kind, tb.target@, tb.state, tb.output@),
        UiBlock::Activity(_) => BlockV::Activity,
        UiBlock::Diff { file, body } => BlockV::Diff(file@, body@),
        UiBlock::Error(t) => BlockV::Error(t@),
    }
}

pub open spec fn blocks_view(v: Seq<UiBlock>) -> Seq<BlockV> {
    Seq::new(v.len(), |i: int| block_view(v[i]))
}

/// The blocks of tool calls, each with the target read from its arguments.
pub open spec fn call_blocks(calls: Seq<crate::providers::ToolCall>) -> Seq<BlockV> {
    Seq::new(
        calls.len(),
        |i: int|
            BlockV::Tool(
                tool_kind_spec(calls[i].name@),
                tool_target_spec(calls[i].name@, calls[i].arguments@),
                ToolState::Success,
                seq![],
            ),
    )
}

/// The timeline rebuilt from saved messages: prompts and replies as they
/// are, a block per tool call, and each tool result filled into the tool
/// block before it when that one has no output yet (else a block of its own).
pub open spec fn history_blocks(msgs: Seq<Message>) -> Seq<BlockV>
    decreases msgs.len(),
{
    if msgs.len() == 0 {
        seq![]
    } else {
        let prev = history_blocks(msgs.drop_last());
        match msgs.last() {
            Message::User { content } => prev.push(BlockV::User(content@)),
            Message::Assistant { content, tool_calls, .. } => {
                let a = match content {
                    Some(c) => prev.push(BlockV::Assistant(c@)),
                    None => prev,
                };
                a + call_blocks(tool_calls@)
            },
            Message::Tool { content, .. } => {
                let fresh = prev.push(BlockV::Tool(ToolKind::Shell, seq![], ToolState::Success, content@));
                if prev.len() > 0 {
                    match prev.last() {
                        BlockV::Tool(k, t, _, o) => if o.len() == 0 {
                            prev.update(prev.len() - 1, BlockV::Tool(k, t, ToolState::Success, content@))
                        } else {
                            fresh
                        },
                        _ => fresh,
                    }
                } else {
                    fresh
                }
            },
            Message::System { .. } => prev,
        }
    }
}

impl App {
    /// Rebuild the on-screen conversation from persisted messages.
    pub fn content_from_history(&mut self, messages: &[Message])
        ensures
            blocks_view(final(self).content@) == history_blocks(messages@),
            final(self).expanded@ == Set::<usize>::empty(),
            *final(self) == (App {
                content: final(self).content,
                selected: None,
                expanded: final(self).expanded,
                auto_scroll: true,
                pending: 0,
                ..*old(self)
            }),
    {
        self.content.clear();
        self.selected = None;
        self.expanded.clear();
        assert(blocks_view(self.content@) =~= history_blocks(messages@.take(0)));
        for i in 0..messages.len()
            invariant
                blocks_view(self.content@) == history_blocks(messages@.take(i as int)),
                self.expanded@ == Set::<usize>::empty(),
                *self == (App {
                    content: self.content,
                    selected: None,
                    expanded: self.expanded,
                    ..*old(self)
                }),
        {
            assert(messages@.take(i + 1).drop_last() =~= messages@.take(i as int));
            let ghost prev = blocks_view(self.content@);
            match &messages[i] {
                Message::User { content } => {
                    self.content.push(UiBlock::User(content.clone()));
                    assert(blocks_view(self.content@) =~= prev.push(BlockV::User(content@)));
                },
                Message::Assistant { content, tool_calls, .. } => {
                    if let Some(c) = content {
                        self.content.push(UiBlock::Assistant { text: c.clone() });
                        assert(blocks_view(self.content@) =~= prev.push(BlockV::Assistant(c@)));
                    }
                    let ghost mid = blocks_view(self.content@);
                    for j in 0..tool_calls.len()
                        invariant
                            blocks_view(self.content@) == mid + call_blocks(tool_calls@.take(j as int)),
                            self.expanded@ == Set::<usize>::empty(),
                            *self == (App {
                                content: self.content,
                                selected: None,
                                expanded: self.expanded,
                                ..*old(self)
                            }),
                    {
                        let tc = &tool_calls[j];
                        let ghost before = blocks_view(self.content@);
                        self.content.push(UiBlock::Tool(ToolBlock {
                            kind: ToolKind::from_name(tc.name.as_str()),
                            target: tool_target(tc.name.as_str(), tc.arguments.as_str()),
                            state: ToolState::Success,
                            output: String::new(),
                        }));
                        assert(blocks_view(self.content@) =~= before.push(blocks_view(self.content@).last()));
                        assert(call_blocks(tool_calls@.take(j + 1)) =~= call_blocks(tool_calls@.take(j as int)).push(
                            call_blocks(tool_calls@)[j as int],
                        ));
                    }
                    assert(tool_calls@.take(tool_calls@.len() as int) =~= tool_calls@);
                    assert(blocks_view(self.content@) == history_blocks(messages@.take(i + 1)));
                },
                Message::Tool { content, .. } => {
                    let n = self.content.len();
                    let fill = n > 0 && match &self.content[n - 1] {
                        UiBlock::Tool(tb) => str_is_empty(tb.output.as_str()),
                        _ => false,
                    };
                    if fill {
                        let last = self.content.pop().unwrap();
                        match last {
                            UiBlock::Tool(tb) => {
                                assert(prev.last() == BlockV::Tool(tb.kind, tb.target@, tb.state, tb.output@));
                                let mut tb = tb;
                                tb.output = content.clone();
                                tb.state = ToolState::Success;
                                self.content.push(UiBlock::Tool(tb));
                                assert(blocks_view(self.content@) =~= prev.update(
                                    prev.len() - 1,
                                    BlockV::Tool(tb.kind, tb.target@, ToolState::Success, content@),
                                ));
                            },
                            other => {
                                self.content.push(other);
                            },
                        }
                    } else {
                        self.content.push(UiBlock::Tool(ToolBlock {
                            kind: ToolKind::Shell,
                            target: String::new(),
                            state: ToolState::Success,
                            output: content.clone(),
                        }));
                        assert(blocks_view(self.content@) =~= prev.push(blocks_view(self.content@).last()));
                    }
                    assert(blocks_view(self.content@) == history_blocks(messages@.take(i + 1)));
                },
                Message::System { .. } => {},
            }
        }
        assert(messages@.take(messages@.len() as int) =~= messages@);
        self.scroll_to_bottom();
    }
}

/// The views with every reasoning block finished.
pub open spec fn close_view(v: Seq<BlockV>) -> Seq<BlockV> {
    Seq::new(
        v.len(),
        |i: int|
            match v[i] {
                BlockV::Reasoning(_) => BlockV::Reasoning(true),
                b => b,
            },
    )
}

pub proof fn lemma_closed_view(a: Seq<UiBlock>, b: Seq<UiBlock>)
    requires
        reasoning_closed(a, b),
    ensures
        blocks_view(b) == close_view(blocks_view(a)),
{
    assert forall|i: int| 0 <= i < a.len() implies #[trigger] blocks_view(b)[i] == close_view(blocks_view(a))[i] by {
        assert(closed_block(a[i], b[i]));
    }
    assert(blocks_view(b) =~= close_view(blocks_view(a)));
}

/// The character index whose byte offset in `t` is `byte`, if any.
pub(crate) fn char_index_at(t: &str, byte: usize) -> (r: Option<usize>)
    ensures
        match r {
            Some(j) => j <= t@.len() && crate::mentions::boff(t@, j as int) == byte,
            None => forall|j: int| 0 <= j <= t@.len() ==> crate::mentions::boff(t@, j) != byte,
        },
{
    let v = chars_of(t);
    let _n = crate::text::str_byte_len(t);
    proof {
        assert(v@.take(v@.len() as int) =~= v@);
    }
    let offs = crate::text::byte_offsets(&v);
    let mut j: usize = 0;
    while j < v.len()
        invariant
            v@ == t@,
            offs@.len() == v@.len() + 1,
            forall|i: int| 0 <= i <= v@.len() ==> offs@[i] == crate::text::byte_len(#[trigger] v@.take(i)),
            forall|i: int| 0 <= i < j ==> crate::mentions::boff(t@, i) != byte,
            j <= v@.len(),
        decreases v@.len() - j,
    {
        if offs[j] == byte {
            return Some(j);
        }
        j += 1;
    }
    if offs[j] == byte {
        return Some(j);
    }
    None
}

/// The @-mention the composer's cursor is in, as `(start, end, query)`,
/// when the cursor sits on a character boundary of the text.
pub open spec fn mention_under_cursor(v: EditorView) -> Option<(nat, nat, Seq<char>)> {
    let t = text_spec(v.lines);
    let c = crate::tui::editor::byte_offset_spec(v.lines, v.cursor);
    let cc = crate::mentions::clamp_cursor(t, c as usize);
    if exists|j: int| 0 <= j <= t.len() && crate::mentions::boff(t, j) == cc {
        crate::mentions::mention_before(t, choose|j: int| 0 <= j <= t.len() && crate::mentions::boff(t, j) == cc)
    } else {
        None
    }
}

/// The mention picker that the composer's text `v` calls for: open on the
/// mention under the cursor, first result selected, with the index's
/// matches (none without an index); closed when the cursor is in no mention.
pub open spec fn picker_for(v: EditorView, file_index: Option<FileIndex>, picker: Option<MentionPicker>) -> bool {
    match mention_under_cursor(v) {
        Some((s, e, q)) => picker matches Some(p) && p.query@ == q && p.start == s && p.end == e && p.selected == 0
            && (match file_index {
            Some(idx) => crate::files::matches_view(p.results@) == crate::files::query_spec(
                idx.files_view(),
                idx.dirs_view(),
                q,
                20,
            ),
            None => p.results@.len() == 0,
        }),
        None => picker is None,
    }
}

impl App {
    /// Refresh the @-mention picker from the composer's current text, with
    /// results from the file index (none while there is no index).
    pub fn update_mentions(&mut self)
        requires
            old(self).wf(),
        ensures
            picker_for(old(self).input@, old(self).file_index, final(self).mention_picker),
            *final(self) == (App { mention_picker: final(self).mention_picker, ..*old(self) }),
    {
        let text = self.input.text();
        let _n = crate::text::str_byte_len(text.as_str());
        let cursor = self.input.cursor_byte_offset();
        let ghost t = text@;
        let ghost cc = crate::mentions::clamp_cursor(t, cursor);
        let total = crate::text::str_byte_len(text.as_str());
        let cur = if cursor <= total {
            cursor
        } else {
            total
        };
        match char_index_at(text.as_str(), cur) {
            None => {
                self.mention_picker = None;
            },
            Some(j) => {
                let ghost jj = choose|j: int| 0 <= j <= t.len() && crate::mentions::boff(t, j) == cc;
                match crate::mentions::mention_at_cursor(text.as_str(), cursor) {
                    Some(m) => {
                        let results = match &self.file_index {
                            Some(idx) => idx.query(m.path.as_str(), 20),
                            None => Vec::new(),
                        };
                        self.mention_picker = Some(MentionPicker {
                            query: m.path.clone(),
                            start: m.start,
                            end: m.end,
                            results,
                            selected: 0,
                        });
                    },
                    None => {
                        self.mention_picker = None;
                    },
                }
            },
        }
    }

    /// Replace the current mention with the selected result and close the
    /// picker; false when there is nothing to select. The replacement is
    /// made only where the editor can take it (no selection, the mention's
    /// range in order); otherwise the picker just closes.
    pub fn select_mention(&mut self) -> (r: bool)
        requires
            old(self).wf(),
        ensures
            mention_post(*old(self), *final(self)),
            r == (old(self).mention_picker matches Some(p) && p.selected < p.results@.len()),
    {
        let picker = self.mention_picker.take();
        match picker {
            Some(p) => {
                if p.selected < p.results.len() {
                    proof {
                        reveal_strlit("@");
                    }
                    let mut rep = chars_of("@");
                    push_str_chars(&mut rep, p.results[p.selected].path.as_str());
                    assert(rep@ =~= seq!['@'] + p.results@[p.selected as int].path@);
                    let text = self.input.text();
                    let n = crate::text::str_byte_len(text.as_str());
                    if self.input.selected_text().is_none() && n < usize::MAX {
                        let s = self.input.cursor_from_byte_offset(p.start);
                        let e = self.input.cursor_from_byte_offset(p.end);
                        if !(s.row == e.row && s.col > e.col) {
                            self.input.replace_range(p.start, p.end, string_of(&rep).as_str());
                        }
                    }
                    true
                } else {
                    false
                }
            },
            None => false,
        }
    }
}

} // verus!
