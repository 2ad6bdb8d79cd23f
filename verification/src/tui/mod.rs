pub mod app;
pub mod render;
pub mod select;
pub mod editor;
pub mod keys;
pub mod md;
pub mod theme;
pub mod panel;

use vstd::prelude::*;

use crate::agent::AgentMode;
use crate::text::{
    all_digits, chars_of, contains, decimal, digits_value, push_str_chars, lowercase, lowercase_of, occurs_at, rfind_chars,
    rfind_spec, slice_chars, starts_with, starts_with_chars, str_lines, str_lines_of, string_of,
    trim_chars, trim_spec, view2,
};
use crate::agent::AgentEvent;
use crate::permissions::Choice;
use crate::tui::editor::{text_spec, EditorAction};
use crate::tui::keys::{KeyCode, KeyEvent, KeyEventKind};
use crate::tui::app::{
    cleared, history_next_post, history_prev_post, picker_for, submit_post, suggestions_spec,
    block_view, blocks_view, close_view, lemma_closed_view, tool_kind_spec, tool_target, tool_target_spec,
    App, BlockV, PermissionRequest, QuestionRequest, SessionItem, SessionPicker, StatusInfo, ToolBlock, ToolKind,
    ToolState, UiBlock,
};
use crate::tui::render::{truncate, truncate_spec};

verus! {

/// Commands from the UI to the agent task.
pub enum UiCommand {
    Run(String),
    SetModel { provider: String, model: String },
    SetAgent(String),
    SetMode(AgentMode),
    LoadSession(String),
    Compact,
}

/// The window title for a working directory: at most 40 characters.
pub fn short_title(cwd: &str) -> (r: String)
    ensures
        r@ == truncate_spec(cwd@, 40),
{
    truncate(cwd, 40)
}

pub open spec fn session_view(s: SessionItem) -> (Seq<char>, Seq<char>, Seq<char>) {
    (s.id@, s.title@, s.created_at@)
}

pub open spec fn sessions_view(v: Seq<SessionItem>) -> Seq<(Seq<char>, Seq<char>, Seq<char>)> {
    Seq::new(v.len(), |i: int| session_view(v[i]))
}

/// A session matches a (lowercase) filter by its lowercased title or its id.
pub open spec fn session_hit(s: SessionItem, f: Seq<char>) -> bool {
    contains(lowercase_of(s.title@), f) || contains(s.id@, f)
}

pub open spec fn sessions_matching(v: Seq<SessionItem>, f: Seq<char>) -> Seq<(Seq<char>, Seq<char>, Seq<char>)>
    decreases v.len(),
{
    if v.len() == 0 {
        seq![]
    } else {
        let prev = sessions_matching(v.drop_last(), f);
        if session_hit(v.last(), f) {
            prev.push(session_view(v.last()))
        } else {
            prev
        }
    }
}

/// The sessions a picker shows: all of them without a filter, else those
/// that match the lowercased filter.
pub open spec fn filtered_sessions_spec(p: SessionPicker) -> Seq<(Seq<char>, Seq<char>, Seq<char>)> {
    let f = lowercase_of(p.filter@);
    if f.len() == 0 {
        sessions_view(p.sessions@)
    } else {
        sessions_matching(p.sessions@, f)
    }
}

fn copy_session(s: &SessionItem) -> (r: SessionItem)
    ensures
        session_view(r) == session_view(*s),
{
    SessionItem { id: s.id.clone(), title: s.title.clone(), created_at: s.created_at.clone() }
}

pub fn filtered_sessions(p: &SessionPicker) -> (r: Vec<SessionItem>)
    ensures
        sessions_view(r@) == filtered_sessions_spec(*p),
{
    let f = lowercase(&chars_of(p.filter.as_str()));
    let mut out: Vec<SessionItem> = Vec::new();
    let ghost fv = lowercase_of(p.filter@);
    for k in 0..p.sessions.len()
        invariant
            f@ == fv,
            fv == lowercase_of(p.filter@),
            sessions_view(out@) == (if fv.len() == 0 {
                sessions_view(p.sessions@.take(k as int))
            } else {
                sessions_matching(p.sessions@.take(k as int), fv)
            }),
    {
        let s = &p.sessions[k];
        let ghost prev = sessions_view(out@);
        assert(p.sessions@.take(k + 1).drop_last() =~= p.sessions@.take(k as int));
        if f.len() == 0 {
            out.push(copy_session(s));
            assert(sessions_view(out@) =~= prev.push(session_view(*s)));
            assert(sessions_view(p.sessions@.take(k + 1)) =~= sessions_view(p.sessions@.take(k as int)).push(session_view(*s)));
        } else {
            let title = lowercase(&chars_of(s.title.as_str()));
            if crate::text::contains_chars(&title, &f) || crate::text::contains_chars(&chars_of(s.id.as_str()), &f) {
                out.push(copy_session(s));
                assert(sessions_view(out@) =~= prev.push(session_view(*s)));
            }
        }
    }
    assert(p.sessions@.take(p.sessions@.len() as int) =~= p.sessions@);
    out
}

/// The file of the first `diff --git` header that names one, from `lines[k]` on.
pub open spec fn git_header_file(lines: Seq<Seq<char>>, k: int) -> Option<Seq<char>>
    decreases lines.len() - k,
{
    if k < 0 || k >= lines.len() {
        None
    } else {
        let l = lines[k];
        let rest = l.skip(11);
        if starts_with(l, "diff --git "@) && rfind_spec(rest, " b/"@, rest.len() as int) is Some {
            Some(rest.skip(rfind_spec(rest, " b/"@, rest.len() as int).unwrap() + 3))
        } else {
            git_header_file(lines, k + 1)
        }
    }
}

/// The file of the first `+++ b/` line, from `lines[k]` on.
pub open spec fn plus_header_file(lines: Seq<Seq<char>>, k: int) -> Option<Seq<char>>
    decreases lines.len() - k,
{
    if k < 0 || k >= lines.len() {
        None
    } else if starts_with(lines[k], "+++ b/"@) {
        Some(lines[k].skip(6))
    } else {
        plus_header_file(lines, k + 1)
    }
}

pub open spec fn diff_file_spec(body: Seq<char>) -> Seq<char> {
    match git_header_file(str_lines(body), 0) {
        Some(f) => f,
        None => match plus_header_file(str_lines(body), 0) {
            Some(f) => f,
            None => "git diff"@,
        },
    }
}

/// Extract the file path from a unified `git diff` output.
pub fn diff_file(body: &str) -> (r: String)
    ensures
        r@ == diff_file_spec(body@),
{
    let lines = str_lines_of(&chars_of(body));
    let ghost lv = view2(lines@);
    let git = chars_of("diff --git ");
    let bsep = chars_of(" b/");
    proof {
        reveal_strlit("diff --git ");
        reveal_strlit(" b/");
        reveal_strlit("+++ b/");
    }
    for k in 0..lines.len()
        invariant
            lv == view2(lines@),
            lv == str_lines(body@),
            git@ == "diff --git "@,
            bsep@ == " b/"@,
            git_header_file(lv, 0) == git_header_file(lv, k as int),
    {
        proof {
            reveal_strlit("diff --git ");
            reveal_strlit(" b/");
        }
        let l = &lines[k];
        assert(l@ == lv[k as int]);
        if starts_with_chars(l, &git) {
            let rest = slice_chars(l, 11, l.len());
            let rn = rest.len();
            assert(rest@ =~= l@.skip(11));
            proof {
                crate::text::lemma_rfind_spec(rest@, bsep@, rest@.len() as int);
            }
            match rfind_chars(&rest, &bsep) {
                Some(idx) => {
                    let f = slice_chars(&rest, idx + 3, rest.len());
                    assert(f@ =~= rest@.skip(idx + 3));
                    return string_of(&f);
                },
                None => {},
            }
        }
    }
    let plus = chars_of("+++ b/");
    for k in 0..lines.len()
        invariant
            lv == view2(lines@),
            lv == str_lines(body@),
            plus@ == "+++ b/"@,
            git_header_file(lv, 0) is None,
            plus_header_file(lv, 0) == plus_header_file(lv, k as int),
    {
        proof {
            reveal_strlit("+++ b/");
        }
        let l = &lines[k];
        assert(l@ == lv[k as int]);
        if starts_with_chars(l, &plus) {
            let f = slice_chars(l, 6, l.len());
            assert(f@ =~= l@.skip(6));
            return string_of(&f);
        }
    }
    String::from_str("git diff")
}

/// What `str::parse::<i32>` accepts: an optional sign, then one or more
/// decimal digits, with a value that fits in `i32`.
pub open spec fn parse_i32_spec(s: Seq<char>) -> Option<int> {
    let neg = s.len() > 0 && s[0] == '-';
    let d = if s.len() > 0 && (s[0] == '-' || s[0] == '+') {
        s.drop_first()
    } else {
        s
    };
    let v: int = if neg {
        -(digits_value(d) as int)
    } else {
        digits_value(d) as int
    };
    if d.len() > 0 && all_digits(d) && i32::MIN <= v <= i32::MAX {
        Some(v)
    } else {
        None
    }
}

proof fn lemma_digits_prefix(s: Seq<char>, k: int)
    requires
        0 <= k <= s.len(),
    ensures
        digits_value(s.take(k)) <= digits_value(s),
    decreases s.len() - k,
{
    if k < s.len() {
        lemma_digits_prefix(s, k + 1);
        assert(s.take(k + 1).drop_last() =~= s.take(k));
    } else {
        assert(s.take(k) =~= s);
    }
}

/// `str::parse::<i32>` over characters.
pub fn parse_i32(s: &[char]) -> (r: Option<i32>)
    ensures
        r == (match parse_i32_spec(s@) {
            Some(v) => Some(v as i32),
            None => None::<i32>,
        }),
{
    let neg = s.len() > 0 && s[0] == '-';
    let start: usize = if s.len() > 0 && (s[0] == '-' || s[0] == '+') {
        1
    } else {
        0
    };
    let ghost d = s@.skip(start as int);
    assert(d =~= (if s@.len() > 0 && (s@[0] == '-' || s@[0] == '+') {
        s@.drop_first()
    } else {
        s@
    }));
    if start >= s.len() {
        return None;
    }
    let limit: u64 = if neg {
        2147483648
    } else {
        2147483647
    };
    let mut v: u64 = 0;
    let mut i = start;
    while i < s.len()
        invariant
            start <= i <= s@.len(),
            start < s@.len(),
            d == s@.skip(start as int),
            d == (if s@.len() > 0 && (s@[0] == '-' || s@[0] == '+') {
                s@.drop_first()
            } else {
                s@
            }),
            neg == (s@.len() > 0 && s@[0] == '-'),
            limit == (if neg {
                2147483648u64
            } else {
                2147483647u64
            }),
            limit <= 2147483648,
            v <= limit,
            all_digits(s@.subrange(start as int, i as int)),
            v == digits_value(s@.subrange(start as int, i as int)),
        decreases s.len() - i,
    {
        let c = s[i];
        assert(s@.subrange(start as int, i + 1).drop_last() =~= s@.subrange(start as int, i as int));
        if !('0' <= c && c <= '9') {
            assert(!crate::text::is_digit(d[i - start]));
            assert(!all_digits(d));
            return None;
        }
        let dv = (c as u32 - '0' as u32) as u64;
        let nv = v * 10 + dv;
        if nv > limit {
            proof {
                assert(s@.subrange(start as int, i + 1) =~= d.take(i - start + 1));
                assert(digits_value(d.take(i - start + 1)) == nv);
                lemma_digits_prefix(d, i - start + 1);
                assert(digits_value(d) > limit);
            }
            return None;
        }
        v = nv;
        i += 1;
    }
    assert(s@.subrange(start as int, i as int) =~= d);
    if neg {
        Some((0 - (v as i64)) as i32)
    } else {
        Some(v as i32)
    }
}

/// A failed tool: its output reports a tool error or a denied permission,
/// or ends with a non-zero exit code.
pub open spec fn tool_failed(output: Seq<char>) -> bool {
    starts_with(output, "tool error:"@) || starts_with(output, "permission denied"@) || match rfind_spec(
        output,
        "exit code: "@,
        output.len() as int,
    ) {
        Some(i) => match parse_i32_spec(trim_spec(output.skip(i + 11))) {
            Some(code) => code != 0,
            None => false,
        },
        None => false,
    }
}

/// Best-effort tool outcome classification from its output text.
pub fn classify_tool_output(output: &str) -> (r: ToolState)
    ensures
        r == (if tool_failed(output@) {
            ToolState::Failed
        } else {
            ToolState::Success
        }),
{
    let o = chars_of(output);
    let n = o.len();
    if starts_with_chars(&o, &chars_of("tool error:")) || starts_with_chars(&o, &chars_of("permission denied")) {
        return ToolState::Failed;
    }
    let ec = chars_of("exit code: ");
    proof {
        reveal_strlit("exit code: ");
        crate::text::lemma_rfind_spec(o@, ec@, o@.len() as int);
    }
    if let Some(idx) = rfind_chars(&o, &ec) {
        let tail = slice_chars(&o, idx + 11, o.len());
        assert(tail@ =~= o@.skip(idx + 11));
        let code = trim_chars(&tail);
        if let Some(c) = parse_i32(&code) {
            if c != 0 {
                return ToolState::Failed;
            }
        }
    }
    ToolState::Success
}

/// A mouse button.
#[derive(Debug, Clone, Copy, PartialEq, Eq, Structural)]
pub enum MouseButton {
    Left,
    Right,
    Middle,
}

/// What the mouse did.
#[derive(Debug, Clone, Copy, PartialEq, Eq, Structural)]
pub enum MouseEventKind {
    Down(MouseButton),
    Up(MouseButton),
    Drag(MouseButton),
    Moved,
    ScrollUp,
    ScrollDown,
    ScrollLeft,
    ScrollRight,
}

/// A mouse event at a terminal cell.
#[derive(Debug, Clone, Copy, PartialEq, Eq, Structural)]
pub struct MouseEvent {
    pub kind: MouseEventKind,
    pub column: u16,
    pub row: u16,
}

/// Handle a terminal mouse event: left-drag selects content, wheel scrolls.
pub fn handle_mouse(app: &mut App, m: MouseEvent)
    ensures
        ({
            let row: usize = if m.row >= old(app).content_area.y {
                (m.row - old(app).content_area.y) as usize
            } else {
                0
            };
            let pos = (row, m.column as usize);
            match m.kind {
                MouseEventKind::Down(MouseButton::Left) => if !old(app).busy && row < old(app).content_area.height {
                    *final(app) == (App { mouse_dragging: true, mouse_sel: Some((pos, pos)), ..*old(app) })
                } else {
                    *final(app) == *old(app)
                },
                MouseEventKind::Drag(MouseButton::Left) => match old(app).mouse_sel {
                    Some(s) => *final(app) == (App { mouse_sel: Some((s.0, pos)), ..*old(app) }),
                    None => *final(app) == *old(app),
                },
                MouseEventKind::Up(MouseButton::Left) => *final(app) == (App { mouse_dragging: false, ..*old(app) }),
                MouseEventKind::ScrollUp => *final(app) == (App {
                    mouse_sel: None,
                    auto_scroll: false,
                    scroll: if old(app).scroll >= 3 {
                        (old(app).scroll - 3) as usize
                    } else {
                        0
                    },
                    ..*old(app)
                }),
                MouseEventKind::ScrollDown => *final(app) == (App {
                    mouse_sel: None,
                    scroll: if old(app).scroll <= usize::MAX - 3 {
                        (old(app).scroll + 3) as usize
                    } else {
                        usize::MAX
                    },
                    ..*old(app)
                }),
                _ => *final(app) == *old(app),
            }
        }),
{
    let row = m.row.saturating_sub(app.content_area.y) as usize;
    let col = m.column as usize;
    match m.kind {
        MouseEventKind::Down(MouseButton::Left) => {
            if !app.busy && row < app.content_area.height as usize {
                app.mouse_dragging = true;
                let pos = (row, col);
                app.mouse_sel = Some((pos, pos));
            }
        },
        MouseEventKind::Drag(MouseButton::Left) => {
            if let Some((anchor, _)) = app.mouse_sel {
                let pos = (row, col);
                app.mouse_sel = Some((anchor, pos));
            }
        },
        MouseEventKind::Up(MouseButton::Left) => {
            app.mouse_dragging = false;
        },
        MouseEventKind::ScrollUp => {
            app.mouse_sel = None;
            app.auto_scroll = false;
            app.scroll = app.scroll.saturating_sub(3);
        },
        MouseEventKind::ScrollDown => {
            app.mouse_sel = None;
            app.scroll = app.scroll.saturating_add(3);
        },
        _ => {},
    }
}

/// The timeline after the agent's text: appended to the last assistant
/// message, or a new one.
pub open spec fn text_blocks(c: Seq<BlockV>, t: Seq<char>) -> Seq<BlockV> {
    if c.len() > 0 && c.last() is Assistant {
        match c.last() {
            BlockV::Assistant(x) => c.update(c.len() - 1, BlockV::Assistant(x + t)),
            _ => c,
        }
    } else {
        c.push(BlockV::Assistant(t))
    }
}

/// The timeline after a tool's output. `git_diff` output becomes a diff
/// block (replacing the git tool block just before it); other output fills
/// the last tool block when it is of the same kind, else a block of its own.
pub open spec fn output_blocks(c: Seq<BlockV>, name: Seq<char>, output: Seq<char>) -> Seq<BlockV> {
    let st = if tool_failed(output) {
        ToolState::Failed
    } else {
        ToolState::Success
    };
    if name == "git_diff"@ {
        let base = if c.len() > 0 && c.last() matches BlockV::Tool(ToolKind::Git, _, _, _) {
            c.drop_last()
        } else {
            c
        };
        base.push(BlockV::Diff(diff_file_spec(output), output))
    } else {
        let k = tool_kind_spec(name);
        if c.len() > 0 && (c.last() matches BlockV::Tool(k2, _, _, _) && k2 == k) {
            match c.last() {
                BlockV::Tool(k2, t, _, _) => c.update(c.len() - 1, BlockV::Tool(k2, t, st, output)),
                _ => c,
            }
        } else {
            c.push(BlockV::Tool(k, seq![], st, output))
        }
    }
}

/// The timeline when the run ends: reasoning finished, running tools
/// marked done, and the error message added on failure.
pub open spec fn done_blocks(c: Seq<BlockV>, ok: bool, message: Seq<char>) -> Seq<BlockV> {
    let d = Seq::new(
        c.len(),
        |i: int|
            match close_view(c)[i] {
                BlockV::Tool(k, t, ToolState::Running, o) => BlockV::Tool(k, t, ToolState::Success, o),
                b => b,
            },
    );
    if ok {
        d
    } else {
        d.push(BlockV::Error(message))
    }
}

/// When a run ends no tool is left shown as running, and no reasoning as
/// open.
pub proof fn law_done_settles_tools(c: Seq<BlockV>, ok: bool, message: Seq<char>)
    ensures
        forall|i: int|
            0 <= i < done_blocks(c, ok, message).len() ==> !(#[trigger] done_blocks(c, ok, message)[i] matches BlockV::Tool(
                _,
                _,
                ToolState::Running,
                _,
            )) && !(done_blocks(c, ok, message)[i] matches BlockV::Reasoning(false)),
{
}

/// The unseen count after pushing `k` blocks.
pub open spec fn pending_after(app: App, k: nat) -> usize {
    if app.auto_scroll {
        app.pending
    } else {
        (app.pending + k) as usize
    }
}

fn append_text(app: &mut App, t: String)
    requires
        !old(app).auto_scroll ==> old(app).pending < usize::MAX,
    ensures
        blocks_view(final(app).content@) == text_blocks(blocks_view(old(app).content@), t@),
        final(app).pending == (if old(app).content@.len() > 0 && old(app).content@.last() is Assistant {
            old(app).pending
        } else {
            pending_after(*old(app), 1)
        }),
        *final(app) == (App { content: final(app).content, pending: final(app).pending, ..*old(app) }),
{
    let n = app.content.len();
    let ghost c = blocks_view(app.content@);
    let is_asst = n > 0 && match &app.content[n - 1] {
        UiBlock::Assistant { .. } => true,
        _ => false,
    };
    if is_asst {
        let last = app.content.pop().unwrap();
        match last {
            UiBlock::Assistant { text } => {
                let mut v = chars_of(text.as_str());
                crate::text::push_str_chars(&mut v, t.as_str());
                let ghost x = text@;
                app.content.push(UiBlock::Assistant { text: string_of(&v) });
                assert(blocks_view(app.content@) =~= c.update(c.len() - 1, BlockV::Assistant(x + t@)));
            },
            other => {
                app.content.push(other);
            },
        }
    } else {
        let ghost tv = t@;
        app.push(UiBlock::Assistant { text: t });
        assert(blocks_view(app.content@) =~= c.push(BlockV::Assistant(tv)));
    }
}

fn tool_output(app: &mut App, name: String, output: String)
    requires
        !old(app).auto_scroll ==> old(app).pending < usize::MAX,
    ensures
        blocks_view(final(app).content@) == output_blocks(blocks_view(old(app).content@), name@, output@),
        *final(app) == (App { content: final(app).content, pending: final(app).pending, ..*old(app) }),
{
    let ghost c = blocks_view(app.content@);
    let n = app.content.len();
    let nm = chars_of(name.as_str());
    if eq_str_local(&nm, "git_diff") {
        let git_last = n > 0 && match &app.content[n - 1] {
            UiBlock::Tool(tb) => tb.kind == ToolKind::Git,
            _ => false,
        };
        if git_last {
            app.content.pop();
            assert(blocks_view(app.content@) =~= c.drop_last());
        }
        let ghost base = blocks_view(app.content@);
        let file = diff_file(output.as_str());
        let ghost ov = output@;
        app.push(UiBlock::Diff { file, body: output });
        assert(blocks_view(app.content@) =~= base.push(BlockV::Diff(diff_file_spec(ov), ov)));
        return;
    }
    let k = ToolKind::from_name(name.as_str());
    let st = classify_tool_output(output.as_str());
    let same = n > 0 && match &app.content[n - 1] {
        UiBlock::Tool(tb) => tb.kind == k,
        _ => false,
    };
    if same {
        let last = app.content.pop().unwrap();
        match last {
            UiBlock::Tool(tb) => {
                let mut tb = tb;
                let ghost ov = output@;
                tb.output = output;
                tb.state = st;
                app.content.push(UiBlock::Tool(tb));
                assert(blocks_view(app.content@) =~= c.update(c.len() - 1, BlockV::Tool(tb.kind, tb.target@, st, ov)));
            },
            other => {
                app.content.push(other);
            },
        }
    } else {
        let ghost ov = output@;
        app.push(UiBlock::Tool(ToolBlock { kind: k, target: String::new(), state: st, output }));
        assert(blocks_view(app.content@) =~= c.push(BlockV::Tool(k, seq![], st, ov)));
    }
}

fn eq_str_local(s: &Vec<char>, p: &str) -> (r: bool)
    ensures
        r == (s@ == p@),
{
    crate::text::eq_str(s, p)
}

fn finish_tools(app: &mut App)
    ensures
        blocks_view(final(app).content@) == Seq::new(
            old(app).content@.len(),
            |i: int|
                match blocks_view(old(app).content@)[i] {
                    BlockV::Tool(k, t, ToolState::Running, o) => BlockV::Tool(k, t, ToolState::Success, o),
                    b => b,
                },
        ),
        *final(app) == (App { content: final(app).content, ..*old(app) }),
{
    let ghost before = blocks_view(app.content@);
    let ghost want = Seq::new(
        before.len(),
        |i: int|
            match before[i] {
                BlockV::Tool(k, t, ToolState::Running, o) => BlockV::Tool(k, t, ToolState::Success, o),
                b => b,
            },
    );
    let mut rest: Vec<UiBlock> = Vec::new();
    std::mem::swap(&mut rest, &mut app.content);
    let n = rest.len();
    let mut k: usize = 0;
    assert(blocks_view(rest@) =~= before.skip(0));
    while rest.len() > 0
        invariant
            k + rest@.len() == n,
            n == before.len(),
            before == blocks_view(old(app).content@),
            want == Seq::new(
                before.len(),
                |i: int|
                    match before[i] {
                        BlockV::Tool(k, t, ToolState::Running, o) => BlockV::Tool(k, t, ToolState::Success, o),
                        b => b,
                    },
            ),
            blocks_view(rest@) == before.skip(k as int),
            blocks_view(app.content@) == want.take(k as int),
            *app == (App { content: app.content, ..*old(app) }),
        decreases rest.len(),
    {
        let ghost r0 = rest@;
        assert(blocks_view(r0)[0] == block_view(r0[0]));
        assert(before.skip(k as int)[0] == before[k as int]);
        let b = rest.remove(0);
        assert(block_view(b) == before[k as int]);
        assert(blocks_view(rest@) =~= blocks_view(r0).drop_first());
        assert(blocks_view(rest@) =~= before.skip(k + 1));
        let nb = match b {
            UiBlock::Tool(tb) => {
                let mut tb = tb;
                if tb.state == ToolState::Running {
                    tb.state = ToolState::Success;
                }
                UiBlock::Tool(tb)
            },
            other => other,
        };
        let ghost prev = blocks_view(app.content@);
        app.content.push(nb);
        assert(blocks_view(app.content@) =~= prev.push(want[k as int]));
        assert(want.take(k + 1) =~= want.take(k as int).push(want[k as int]));
        k += 1;
    }
    assert(want.take(n as int) =~= want);
}

/// Apply an agent event to the UI state.
pub fn handle_agent(app: &mut App, ev: AgentEvent)
    requires
        old(app).pending < usize::MAX,
    ensures
        match ev {
            AgentEvent::Text(t) => blocks_view(final(app).content@) == text_blocks(
                close_view(blocks_view(old(app).content@)),
                t@,
            ),
            AgentEvent::Reasoning(_) => if old(app).content@.len() > 0 && crate::tui::app::open_reasoning(
                old(app).content@.last(),
            ) {
                *final(app) == *old(app)
            } else {
                blocks_view(final(app).content@) == blocks_view(old(app).content@).push(BlockV::Reasoning(false))
            },
            AgentEvent::ToolStart { name, args } => blocks_view(final(app).content@) == close_view(
                blocks_view(old(app).content@),
            ).push(BlockV::Tool(tool_kind_spec(name@), tool_target_spec(name@, args@), ToolState::Running, seq![])),
            AgentEvent::Diff { file, body } => blocks_view(final(app).content@) == blocks_view(
                old(app).content@,
            ).push(BlockV::Diff(file@, body@)),
            AgentEvent::ToolOutput { name, output } => blocks_view(final(app).content@) == output_blocks(
                blocks_view(old(app).content@),
                name@,
                output@,
            ),
            AgentEvent::Permission { prompt, .. } => {
                &&& final(app).pending_permission matches Some(p) && p.prompt@ == prompt@ && p.respond is Some
                    && !p.entering_feedback && p.feedback@.len() == 0
                &&& *final(app) == (App { pending_permission: final(app).pending_permission, ..*old(app) })
            },
            AgentEvent::Question { prompt, options, .. } => {
                &&& final(app).pending_question matches Some(q) && q.prompt@ == prompt@ && q.options == options
                    && q.selected == 0 && q.respond is Some
                &&& *final(app) == (App { pending_question: final(app).pending_question, ..*old(app) })
            },
            AgentEvent::Compact { removed } => {
                &&& final(app).toast matches Some(t) && t.0@ == if removed > 0 {
                    "Conversation compacted ("@ + decimal(removed as nat) + " messages folded)."@
                } else {
                    "Nothing to compact yet."@
                }
                &&& *final(app) == (App { toast: final(app).toast, ..*old(app) })
            },
            AgentEvent::Done { ok, message } => {
                &&& blocks_view(final(app).content@) == done_blocks(blocks_view(old(app).content@), ok, message@)
                &&& !final(app).busy
                &&& final(app).pending_permission is None
                &&& final(app).pending_question is None
                &&& final(app).auto_scroll
                &&& final(app).pending == 0
                &&& (if ok {
                    final(app).last_error == old(app).last_error
                } else {
                    final(app).last_error matches Some(e) && e@ == message@
                })
                &&& *final(app) == (App {
                    content: final(app).content,
                    busy: false,
                    pending_permission: None,
                    pending_question: None,
                    last_error: final(app).last_error,
                    auto_scroll: true,
                    pending: 0,
                    ..*old(app)
                })
            },
        },
{
    match ev {
        AgentEvent::Text(t) => {
            let ghost c0 = app.content@;
            app.finalize_reasoning();
            proof {
                lemma_closed_view(c0, app.content@);
            }
            append_text(app, t);
        },
        AgentEvent::Reasoning(_) => {
            app.begin_or_continue_reasoning();
            proof {
                if !(old(app).content@.len() > 0 && crate::tui::app::open_reasoning(old(app).content@.last())) {
                    assert(blocks_view(app.content@) =~= blocks_view(old(app).content@).push(BlockV::Reasoning(false)));
                }
            }
        },
        AgentEvent::ToolStart { name, args } => {
            let ghost c0 = app.content@;
            app.finalize_reasoning();
            proof {
                lemma_closed_view(c0, app.content@);
            }
            let target = tool_target(name.as_str(), args.as_str());
            let ghost c1 = blocks_view(app.content@);
            let ghost tv = target@;
            app.push(UiBlock::Tool(ToolBlock {
                kind: ToolKind::from_name(name.as_str()),
                target,
                state: ToolState::Running,
                output: String::new(),
            }));
            assert(blocks_view(app.content@) =~= c1.push(BlockV::Tool(tool_kind_spec(name@), tv, ToolState::Running, seq![])));
        },
        AgentEvent::Diff { file, body } => {
            let ghost c0 = blocks_view(app.content@);
            let ghost fv = file@;
            let ghost bv = body@;
            app.push(UiBlock::Diff { file, body });
            assert(blocks_view(app.content@) =~= c0.push(BlockV::Diff(fv, bv)));
        },
        AgentEvent::ToolOutput { name, output } => {
            tool_output(app, name, output);
        },
        AgentEvent::Permission { prompt, respond } => {
            app.pending_permission = Some(PermissionRequest {
                prompt,
                respond: Some(respond),
                entering_feedback: false,
                feedback: String::new(),
            });
        },
        AgentEvent::Question { prompt, options, respond } => {
            app.pending_question = Some(QuestionRequest { prompt, options, selected: 0, respond: Some(respond) });
        },
        AgentEvent::Compact { removed } => {
            if removed > 0 {
                let mut m = chars_of("Conversation compacted (");
                crate::text::push_decimal(&mut m, removed);
                crate::text::push_str_chars(&mut m, " messages folded).");
                app.show_toast(string_of(&m).as_str());
            } else {
                app.show_toast("Nothing to compact yet.");
            }
        },
        AgentEvent::Done { ok, message } => {
            let ghost c0 = app.content@;
            app.finalize_reasoning();
            proof {
                lemma_closed_view(c0, app.content@);
            }
            app.busy = false;
            app.pending_permission = None;
            app.pending_question = None;
            finish_tools(app);
            let ghost c2 = blocks_view(app.content@);
            assert(c2 =~= done_blocks(blocks_view(c0), true, message@));
            if !ok {
                app.last_error = Some(message.clone());
                let ghost mv = message@;
                app.push(UiBlock::Error(message));
                assert(blocks_view(app.content@) =~= c2.push(BlockV::Error(mv)));
            }
            app.auto_scroll = true;
            app.pending = 0;
        },
    }
}

/// What the UI loop has to do after a key, beyond the state change that
/// the key made.
pub enum KeyAction {
    Nothing,
    /// Send a command to the agent task.
    Send(UiCommand),
    /// Interrupt the running agent.
    Cancel,
    /// Run a prompt: record it in the history file, clear the interrupt
    /// flag, and send it to the agent.
    Submit(String),
    /// Put text on the system clipboard.
    Clipboard(String),
    /// Paste the system clipboard into the composer (then refresh
    /// suggestions and mentions).
    PasteSystemClipboard,
    /// Answer a pending question.
    Answer(tokio::sync::oneshot::Sender<Option<String>>, Option<String>),
    /// Answer a pending permission request.
    Permit(tokio::sync::oneshot::Sender<Choice>, Choice),
    /// Switch to a saved session (load it, then tell the agent).
    SwitchSession(String),
    /// Delete a saved session and refresh the open picker.
    DeleteSession(String),
    /// Create a new session and switch to it.
    NewSession,
    /// Open the session picker over the saved sessions.
    OpenSessions,
    /// Open the theme picker on the current theme.
    OpenThemes,
    /// Fork the current session and switch to the fork.
    Fork,
    /// Rename the current session.
    Rename(String),
}

/// The `/status` text.
pub open spec fn status_text(st: StatusInfo) -> Seq<char> {
    "**Status**\n\nmodel: `"@ + st.model@ + "`\nsession: `"@ + st.session@ + "`\ncwd: `"@ + st.cwd@ + "`"@
}

/// The `/debug` text.
pub open spec fn debug_text(st: StatusInfo) -> Seq<char> {
    "**Debug**\n\nmodel: `"@ + st.model@ + "`\nsession: `"@ + st.session@ + "`\ncwd: `"@ + st.cwd@
        + "`\n\n`/debug` — /quit untuk keluar"@
}

/// The `/help` text.
pub open spec fn help_text() -> Seq<char> {
    "**Pintasan**\n\n`Ctrl+K` palette · `Ctrl+C` keluar · `Esc` batal/berhenti\n`Cmd+C` salin output (pilih dulu dgn `Ctrl+↑/↓`, atau pesan terakhir) · `Ctrl+O` sama\n`Enter` kirim · `Shift+Enter` baris baru · `↑/↓` riwayat\n`Shift+Tab` ganti mode (PLAN/BUILD/AUTO) · `Ctrl+↑/↓` pilih item\n`Enter` (saat terpilih) buka/tutup output · `Tab` semua output\n`Ctrl+J` baris baru\n\n**Slash**: `/mode` `/mode plan|build|auto` `/models` `/sessions` `/new` `/clear` `/status` `/help` `/debug` `/quit`"@
}

/// Counts over the timeline: user prompts, assistant replies, tool and
/// diff blocks, and characters of their text (capped at `usize::MAX`).
pub open spec fn stats_counts(c: Seq<BlockV>) -> (nat, nat, nat, nat)
    decreases c.len(),
{
    if c.len() == 0 {
        (0, 0, 0, 0)
    } else {
        let (u, a, t, n) = stats_counts(c.drop_last());
        let cap = |x: nat| if x > usize::MAX { usize::MAX as nat } else { x };
        match c.last() {
            BlockV::User(x) => (u + 1, a, t, cap(n + x.len())),
            BlockV::Assistant(x) => (u, a + 1, t, cap(n + x.len())),
            BlockV::Tool(_, _, _, o) => (u, a, t + 1, cap(n + o.len())),
            BlockV::Diff(_, b) => (u, a, t + 1, cap(n + b.len())),
            BlockV::Error(x) => (u, a, t, cap(n + x.len())),
            _ => (u, a, t, n),
        }
    }
}

/// The `/stats` text.
pub open spec fn stats_text(c: Seq<BlockV>, st: StatusInfo) -> Seq<char> {
    let (u, a, t, n) = stats_counts(c);
    "**Stats**\n\nuser: `"@ + decimal(u) + "` · assistant: `"@ + decimal(a) + "` · tool: `"@ + decimal(t)
        + "`\nestimated tokens (chars/4): `"@ + decimal(n / 4) + "`\nmodel: `"@ + st.model@
        + "`\nsession: `"@ + st.session@ + "`"@
}

fn push_assistant(app: &mut App, text: Vec<char>)
    requires
        old(app).pending < usize::MAX,
    ensures
        blocks_view(final(app).content@) == blocks_view(old(app).content@).push(BlockV::Assistant(text@)),
        final(app).pending == pending_after(*old(app), 1),
        *final(app) == (App { content: final(app).content, pending: final(app).pending, ..*old(app) }),
{
    let ghost c = blocks_view(app.content@);
    let ghost tv = text@;
    app.push(UiBlock::Assistant { text: string_of(&text) });
    assert(blocks_view(app.content@) =~= c.push(BlockV::Assistant(tv)));
}

fn stats_of(content: &Vec<UiBlock>) -> (r: (usize, usize, usize, usize))
    ensures
        (r.0 as nat, r.1 as nat, r.2 as nat, r.3 as nat) == stats_counts(blocks_view(content@)),
{
    let mut u: usize = 0;
    let mut a: usize = 0;
    let mut t: usize = 0;
    let mut n: usize = 0;
    for k in 0..content.len()
        invariant
            (u as nat, a as nat, t as nat, n as nat) == stats_counts(blocks_view(content@).take(k as int)),
            u <= k && a <= k && t <= k,
    {
        assert(blocks_view(content@).take(k + 1).drop_last() =~= blocks_view(content@).take(k as int));
        let add: usize = match &content[k] {
            UiBlock::User(x) => {
                u += 1;
                chars_of(x.as_str()).len()
            },
            UiBlock::Assistant { text } => {
                a += 1;
                chars_of(text.as_str()).len()
            },
            UiBlock::Tool(tb) => {
                t += 1;
                chars_of(tb.output.as_str()).len()
            },
            UiBlock::Diff { body, .. } => {
                t += 1;
                chars_of(body.as_str()).len()
            },
            UiBlock::Error(x) => chars_of(x.as_str()).len(),
            _ => 0,
        };
        n = if n > usize::MAX - add {
            usize::MAX
        } else {
            n + add
        };
    }
    assert(blocks_view(content@).take(content@.len() as int) =~= blocks_view(content@));
    (u, a, t, n)
}

/// What running the command `cmd` does to the app, and what it returns.
pub open spec fn command_post(o: App, f: App, cmd: crate::tui::app::Command, r: KeyAction) -> bool {
    match cmd {
        crate::tui::app::Command::NewSession => r is NewSession && f == o,
        crate::tui::app::Command::Sessions => r is OpenSessions && f == o,
        crate::tui::app::Command::Themes => r is OpenThemes && f == o,
        crate::tui::app::Command::Models => r is Nothing && f.model_picker is Some && f == (App {
            input: f.input,
            suggestions: f.suggestions,
            model_picker: f.model_picker,
            ..o
        }),
        crate::tui::app::Command::Agent => r is Nothing && f.agent_picker is Some && f == (App {
            input: f.input,
            suggestions: f.suggestions,
            agent_picker: f.agent_picker,
            ..o
        }),
        crate::tui::app::Command::Status => r is Nothing && blocks_view(f.content@)
            == blocks_view(o.content@).push(BlockV::Assistant(status_text(o.status)))
            && f == (App { content: f.content, pending: f.pending, ..o }),
        crate::tui::app::Command::Stats => r is Nothing && blocks_view(f.content@)
            == blocks_view(o.content@).push(
            BlockV::Assistant(stats_text(blocks_view(o.content@), o.status)),
        ) && f == (App { content: f.content, pending: f.pending, ..o }),
        crate::tui::app::Command::Help => r is Nothing && blocks_view(f.content@)
            == blocks_view(o.content@).push(BlockV::Assistant(help_text()))
            && f == (App { content: f.content, pending: f.pending, ..o }),
        crate::tui::app::Command::Debug => r is Nothing && blocks_view(f.content@)
            == blocks_view(o.content@).push(BlockV::Assistant(debug_text(o.status)))
            && f == (App { content: f.content, pending: f.pending, ..o }),
        crate::tui::app::Command::Clear => r is Nothing && f.content@.len() == 0 && f == (App {
            content: f.content,
            input: f.input,
            suggestions: f.suggestions,
            pastes: f.pastes,
            mention_picker: None,
            selected: None,
            expanded: f.expanded,
            scroll: 0,
            auto_scroll: true,
            ..o
        }),
        crate::tui::app::Command::Quit => r is Nothing && f == (App { quit: true, ..o }),
    }
}

/// Run a palette, leader or slash command.
pub fn run_command(app: &mut App, cmd: crate::tui::app::Command) -> (r: KeyAction)
    requires
        old(app).wf(),
        old(app).pending < usize::MAX,
    ensures
        final(app).wf(),
        command_post(*old(app), *final(app), cmd, r),
{
    match cmd {
        crate::tui::app::Command::NewSession => KeyAction::NewSession,
        crate::tui::app::Command::Sessions => KeyAction::OpenSessions,
        crate::tui::app::Command::Themes => KeyAction::OpenThemes,
        crate::tui::app::Command::Models => {
            app.open_model_picker();
            KeyAction::Nothing
        },
        crate::tui::app::Command::Agent => {
            app.open_agent_picker();
            KeyAction::Nothing
        },
        crate::tui::app::Command::Status => {
            let mut v = chars_of("**Status**\n\nmodel: `");
            push_str_chars(&mut v, app.status.model.as_str());
            push_str_chars(&mut v, "`\nsession: `");
            push_str_chars(&mut v, app.status.session.as_str());
            push_str_chars(&mut v, "`\ncwd: `");
            push_str_chars(&mut v, app.status.cwd.as_str());
            push_str_chars(&mut v, "`");
            push_assistant(app, v);
            KeyAction::Nothing
        },
        crate::tui::app::Command::Stats => {
            let (u, a, t, n) = stats_of(&app.content);
            let mut v = chars_of("**Stats**\n\nuser: `");
            crate::text::push_decimal(&mut v, u);
            push_str_chars(&mut v, "` · assistant: `");
            crate::text::push_decimal(&mut v, a);
            push_str_chars(&mut v, "` · tool: `");
            crate::text::push_decimal(&mut v, t);
            push_str_chars(&mut v, "`\nestimated tokens (chars/4): `");
            crate::text::push_decimal(&mut v, n / 4);
            push_str_chars(&mut v, "`\nmodel: `");
            push_str_chars(&mut v, app.status.model.as_str());
            push_str_chars(&mut v, "`\nsession: `");
            push_str_chars(&mut v, app.status.session.as_str());
            push_str_chars(&mut v, "`");
            push_assistant(app, v);
            KeyAction::Nothing
        },
        crate::tui::app::Command::Help => {
            let v = chars_of("**Pintasan**\n\n`Ctrl+K` palette · `Ctrl+C` keluar · `Esc` batal/berhenti\n`Cmd+C` salin output (pilih dulu dgn `Ctrl+↑/↓`, atau pesan terakhir) · `Ctrl+O` sama\n`Enter` kirim · `Shift+Enter` baris baru · `↑/↓` riwayat\n`Shift+Tab` ganti mode (PLAN/BUILD/AUTO) · `Ctrl+↑/↓` pilih item\n`Enter` (saat terpilih) buka/tutup output · `Tab` semua output\n`Ctrl+J` baris baru\n\n**Slash**: `/mode` `/mode plan|build|auto` `/models` `/sessions` `/new` `/clear` `/status` `/help` `/debug` `/quit`");
            push_assistant(app, v);
            KeyAction::Nothing
        },
        crate::tui::app::Command::Clear => {
            app.clear_view();
            KeyAction::Nothing
        },
        crate::tui::app::Command::Debug => {
            let mut v = chars_of("**Debug**\n\nmodel: `");
            push_str_chars(&mut v, app.status.model.as_str());
            push_str_chars(&mut v, "`\nsession: `");
            push_str_chars(&mut v, app.status.session.as_str());
            push_str_chars(&mut v, "`\ncwd: `");
            push_str_chars(&mut v, app.status.cwd.as_str());
            push_str_chars(&mut v, "`\n\n`/debug` — /quit untuk keluar");
            push_assistant(app, v);
            KeyAction::Nothing
        },
        crate::tui::app::Command::Quit => {
            app.quit = true;
            KeyAction::Nothing
        },
    }
}

/// Apply an agent mode change: the UI shows it (noting that it applies to
/// the next turn while busy) and the agent task is told.
pub fn set_mode(app: &mut App, mode: AgentMode) -> (r: KeyAction)
    ensures
        r matches KeyAction::Send(UiCommand::SetMode(m)) && m == mode,
        final(app).toast matches Some(t) && t.0@ == (if old(app).busy {
            "Mode → "@ + crate::agent::mode_label(mode) + " (applies to the next turn)"@
        } else {
            "Mode → "@ + crate::agent::mode_label(mode)
        }),
        *final(app) == (App { mode, mode_picker: None, toast: final(app).toast, ..*old(app) }),
{
    app.set_mode(mode);
    let mut v = chars_of("Mode → ");
    push_str_chars(&mut v, mode.label());
    if app.busy {
        push_str_chars(&mut v, " (applies to the next turn)");
    }
    app.show_toast(string_of(&v).as_str());
    KeyAction::Send(UiCommand::SetMode(mode))
}

/// `s` with its last character removed (as `String::pop`).
pub open spec fn popped(s: Seq<char>) -> Seq<char> {
    if s.len() > 0 {
        s.drop_last()
    } else {
        s
    }
}

fn push_char(s: &String, c: char) -> (r: String)
    ensures
        r@ == s@.push(c),
{
    let mut v = chars_of(s.as_str());
    v.push(c);
    string_of(&v)
}

fn pop_char(s: &String) -> (r: String)
    ensures
        r@ == popped(s@),
{
    let v = chars_of(s.as_str());
    if v.len() > 0 {
        let w = slice_chars(&v, 0, v.len() - 1);
        assert(w@ =~= v@.drop_last());
        string_of(&w)
    } else {
        string_of(&v)
    }
}

/// One step up a list.
pub open spec fn up(sel: usize) -> usize {
    if sel > 0 {
        (sel - 1) as usize
    } else {
        sel
    }
}

/// One step down a list of `n` items.
pub open spec fn down(sel: usize, n: nat) -> usize {
    if sel + 1 < n {
        (sel + 1) as usize
    } else {
        sel
    }
}

/// Ten steps up.
pub open spec fn page_up(sel: usize) -> usize {
    if sel >= 10 {
        (sel - 10) as usize
    } else {
        0
    }
}

/// Ten steps down a list of `n` items, stopping at the last.
pub open spec fn page_down(sel: usize, n: nat) -> usize {
    let last: int = if n >= 1 {
        n - 1
    } else {
        0
    };
    if sel + 10 < last {
        (sel + 10) as usize
    } else {
        last as usize
    }
}

/// The item an Enter picks: the selection, clamped to the last item.
pub open spec fn clamped(sel: usize, n: nat) -> int {
    let last: int = if n >= 1 {
        n - 1
    } else {
        0
    };
    if sel < last {
        sel as int
    } else {
        last
    }
}

/// What `diff_viewer_key` does with a key.
pub open spec fn diff_key_post(o: App, n: App, code: KeyCode, r: KeyAction) -> bool {
    &&& ({
                let d = o.diff_viewer.unwrap();
                match code {
                    KeyCode::Up => r is Nothing && n.diff_viewer == Some(
                        crate::tui::app::DiffViewer { scroll: up(d.scroll), ..d },
                    ),
                    KeyCode::Down => r is Nothing && n.diff_viewer == Some(
                        crate::tui::app::DiffViewer { scroll: (d.scroll + 1) as usize, ..d },
                    ),
                    KeyCode::PageUp => r is Nothing && n.diff_viewer == Some(
                        crate::tui::app::DiffViewer { scroll: page_up(d.scroll), ..d },
                    ),
                    KeyCode::PageDown => r is Nothing && n.diff_viewer == Some(
                        crate::tui::app::DiffViewer { scroll: (d.scroll + 10) as usize, ..d },
                    ),
                    KeyCode::Esc | KeyCode::Char('q') => r is Nothing && n.diff_viewer is None,
                    KeyCode::Char('y') | KeyCode::Char('c') => {
                        &&& r matches KeyAction::Clipboard(t) && t@ == d.body@
                        &&& n.diff_viewer == o.diff_viewer
                        &&& n.toast matches Some(m) && m.0@ == "Diff copied to clipboard."@
                    },
                    _ => r is Nothing && n.diff_viewer == o.diff_viewer,
                }
            })
    &&& n == (App { diff_viewer: n.diff_viewer, toast: n.toast, ..o })
}

/// Keys while the fullscreen diff viewer is open: arrows and pages scroll,
/// Esc or `q` close it, `y` or `c` copy the diff.
pub fn diff_viewer_key(app: &mut App, code: KeyCode) -> (r: KeyAction)
    requires
        old(app).diff_viewer matches Some(d) && d.scroll + 10 <= usize::MAX,
    ensures
        diff_key_post(*old(app), *final(app), code, r),

{
    let mut d = app.diff_viewer.take().unwrap();
    let r = match code {
        KeyCode::Up => {
            d.scroll = d.scroll.saturating_sub(1);
            KeyAction::Nothing
        },
        KeyCode::Down => {
            d.scroll = d.scroll + 1;
            KeyAction::Nothing
        },
        KeyCode::PageUp => {
            d.scroll = d.scroll.saturating_sub(10);
            KeyAction::Nothing
        },
        KeyCode::PageDown => {
            d.scroll = d.scroll + 10;
            KeyAction::Nothing
        },
        KeyCode::Esc | KeyCode::Char('q') => {
            return KeyAction::Nothing;
        },
        KeyCode::Char('y') | KeyCode::Char('c') => {
            let body = d.body.clone();
            app.diff_viewer = Some(d);
            app.show_toast("Diff copied to clipboard.");
            return KeyAction::Clipboard(body);
        },
        _ => KeyAction::Nothing,
    };
    app.diff_viewer = Some(d);
    r
}

/// What `session_picker_key` does with a key.
pub open spec fn session_key_post(o: App, n: App, code: KeyCode, r: KeyAction) -> bool {
    &&& ({
                let p = o.session_picker.unwrap();
                let items = filtered_sessions_spec(p);
                match code {
                    KeyCode::Up => r is Nothing && n.session_picker == Some(
                        SessionPicker { selected: up(p.selected), ..p },
                    ),
                    KeyCode::Down => r is Nothing && n.session_picker == Some(
                        SessionPicker { selected: down(p.selected, items.len()), ..p },
                    ),
                    KeyCode::PageUp => r is Nothing && n.session_picker == Some(
                        SessionPicker { selected: page_up(p.selected), ..p },
                    ),
                    KeyCode::PageDown => r is Nothing && n.session_picker == Some(
                        SessionPicker { selected: page_down(p.selected, items.len()), ..p },
                    ),
                    KeyCode::Char(c) => {
                        &&& r is Nothing
                        &&& n.session_picker matches Some(n) && n.filter@ == p.filter@.push(c) && n.selected
                            == 0 && n.sessions == p.sessions
                    },
                    KeyCode::Backspace => {
                        &&& r is Nothing
                        &&& n.session_picker matches Some(n) && n.filter@ == popped(p.filter@) && n.selected
                            == 0 && n.sessions == p.sessions
                    },
                    KeyCode::Enter => n.session_picker is None && if items.len() > 0 {
                        r matches KeyAction::SwitchSession(id) && id@ == items[clamped(p.selected, items.len())].0
                    } else {
                        r is Nothing
                    },
                    KeyCode::Delete => n.session_picker == o.session_picker && if items.len() > 0 {
                        r matches KeyAction::DeleteSession(id) && id@ == items[clamped(p.selected, items.len())].0
                    } else {
                        r is Nothing
                    },
                    KeyCode::Esc => r is Nothing && n.session_picker is None,
                    _ => r is Nothing && n.session_picker == o.session_picker,
                }
            })
    &&& n == (App { session_picker: n.session_picker, ..o })
}

/// Keys while the session picker is open: move, page, type to filter,
/// Enter switches to the picked session, Delete deletes it, Esc closes.
pub fn session_picker_key(app: &mut App, code: KeyCode) -> (r: KeyAction)
    requires
        old(app).session_picker matches Some(p) && p.selected + 10 <= usize::MAX,
    ensures
        session_key_post(*old(app), *final(app), code, r),

{
    let mut p = app.session_picker.take().unwrap();
    let ghost p0 = p;
    match code {
        KeyCode::Up => {
            if p.selected > 0 {
                p.selected = p.selected - 1;
            }
        },
        KeyCode::Down => {
            let items = filtered_sessions(&p);
            if p.selected + 1 < items.len() {
                p.selected = p.selected + 1;
            }
        },
        KeyCode::PageUp => {
            p.selected = p.selected.saturating_sub(10);
        },
        KeyCode::PageDown => {
            let items = filtered_sessions(&p);
            let last = items.len().saturating_sub(1);
            p.selected = if p.selected + 10 < last {
                p.selected + 10
            } else {
                last
            };
        },
        KeyCode::Char(c) => {
            p.filter = push_char(&p.filter, c);
            p.selected = 0;
        },
        KeyCode::Backspace => {
            p.filter = pop_char(&p.filter);
            p.selected = 0;
        },
        KeyCode::Enter => {
            let items = filtered_sessions(&p);
            if items.len() > 0 {
                let last = items.len() - 1;
                let i = if p.selected < last {
                    p.selected
                } else {
                    last
                };
                return KeyAction::SwitchSession(items[i].id.clone());
            }
            return KeyAction::Nothing;
        },
        KeyCode::Delete => {
            let items = filtered_sessions(&p);
            let r = if items.len() > 0 {
                let last = items.len() - 1;
                let i = if p.selected < last {
                    p.selected
                } else {
                    last
                };
                KeyAction::DeleteSession(items[i].id.clone())
            } else {
                KeyAction::Nothing
            };
            app.session_picker = Some(p);
            return r;
        },
        KeyCode::Esc => {
            return KeyAction::Nothing;
        },
        _ => {},
    }
    app.session_picker = Some(p);
    KeyAction::Nothing
}

/// What `mode_picker_key` does with a key.
pub open spec fn mode_key_post(o: App, n: App, code: KeyCode, r: Option<KeyAction>) -> bool {
    &&& ({
                let p = o.mode_picker.unwrap();
                match code {
                    KeyCode::Up => r matches Some(KeyAction::Nothing) && n == (App {
                        mode_picker: Some(crate::tui::app::ModePicker { selected: up(p.selected), ..p }),
                        ..o
                    }),
                    KeyCode::Down => r matches Some(KeyAction::Nothing) && n == (App {
                        mode_picker: Some(crate::tui::app::ModePicker { selected: down(p.selected, p.modes@.len()), ..p }),
                        ..o
                    }),
                    KeyCode::Enter => if p.selected < p.modes@.len() {
                        &&& r matches Some(KeyAction::Send(UiCommand::SetMode(m))) && m == p.modes@[p.selected as int].0
                        &&& n.mode == p.modes@[p.selected as int].0
                        &&& n == (App { mode: n.mode, mode_picker: None, toast: n.toast, ..o })
                    } else {
                        r matches Some(KeyAction::Nothing) && n == (App { mode_picker: None, ..o })
                    },
                    KeyCode::Esc => r matches Some(KeyAction::Nothing) && n == (App { mode_picker: None, ..o }),
                    _ => r is None && n == o,
                }
            })
}

/// Keys while the mode picker is open: move, Enter applies the mode, Esc
/// closes; other keys are not taken (`None`).
pub fn mode_picker_key(app: &mut App, code: KeyCode) -> (r: Option<KeyAction>)
    requires
        old(app).mode_picker is Some,
    ensures
        mode_key_post(*old(app), *final(app), code, r),

{
    match code {
        KeyCode::Up => {
            let mut p = app.mode_picker.take().unwrap();
            if p.selected > 0 {
                p.selected = p.selected - 1;
            }
            app.mode_picker = Some(p);
            Some(KeyAction::Nothing)
        },
        KeyCode::Down => {
            let mut p = app.mode_picker.take().unwrap();
            if p.selected < p.modes.len() && p.selected + 1 < p.modes.len() {
                p.selected = p.selected + 1;
            }
            app.mode_picker = Some(p);
            Some(KeyAction::Nothing)
        },
        KeyCode::Enter => {
            let p = app.mode_picker.take().unwrap();
            if p.selected < p.modes.len() {
                let mode = p.modes[p.selected].0;
                Some(set_mode(app, mode))
            } else {
                Some(KeyAction::Nothing)
            }
        },
        KeyCode::Esc => {
            app.mode_picker = None;
            Some(KeyAction::Nothing)
        },
        _ => None,
    }
}

/// What `agent_picker_key` does with a key.
pub open spec fn agent_key_post(o: App, n: App, code: KeyCode, r: KeyAction) -> bool {
    &&& ({
                let p = o.agent_picker.unwrap();
                match code {
                    KeyCode::Up => r is Nothing && n == (App {
                        agent_picker: Some(crate::tui::app::AgentPicker { selected: up(p.selected), ..p }),
                        ..o
                    }),
                    KeyCode::Down => r is Nothing && n == (App {
                        agent_picker: Some(crate::tui::app::AgentPicker { selected: down(p.selected, p.agents@.len()), ..p }),
                        ..o
                    }),
                    KeyCode::Enter => if p.selected < p.agents@.len() {
                        let name = p.agents@[p.selected as int].0@;
                        &&& r matches KeyAction::Send(UiCommand::SetAgent(n)) && n@ == name
                        &&& n.toast matches Some(t) && t.0@ == "Agent → "@ + name
                        &&& n == (App { agent_picker: None, toast: n.toast, ..o })
                    } else {
                        r is Nothing && n == (App { agent_picker: None, ..o })
                    },
                    KeyCode::Esc => r is Nothing && n == (App { agent_picker: None, ..o }),
                    _ => r is Nothing && n == o,
                }
            })
}

/// Keys while the agent picker is open: move, Enter picks the agent (and
/// says so), Esc closes; other keys do nothing.
pub fn agent_picker_key(app: &mut App, code: KeyCode) -> (r: KeyAction)
    requires
        old(app).agent_picker is Some,
    ensures
        agent_key_post(*old(app), *final(app), code, r),

{
    match code {
        KeyCode::Up => {
            let mut p = app.agent_picker.take().unwrap();
            if p.selected > 0 {
                p.selected = p.selected - 1;
            }
            app.agent_picker = Some(p);
            KeyAction::Nothing
        },
        KeyCode::Down => {
            let mut p = app.agent_picker.take().unwrap();
            if p.selected < p.agents.len() && p.selected + 1 < p.agents.len() {
                p.selected = p.selected + 1;
            }
            app.agent_picker = Some(p);
            KeyAction::Nothing
        },
        KeyCode::Enter => {
            let p = app.agent_picker.take().unwrap();
            if p.selected < p.agents.len() {
                let name = p.agents[p.selected].0.clone();
                let mut t = chars_of("Agent → ");
                push_str_chars(&mut t, name.as_str());
                app.show_toast(string_of(&t).as_str());
                KeyAction::Send(UiCommand::SetAgent(name))
            } else {
                KeyAction::Nothing
            }
        },
        KeyCode::Esc => {
            app.agent_picker = None;
            KeyAction::Nothing
        },
        _ => KeyAction::Nothing,
    }
}

/// What `model_picker_key` does with a key.
pub open spec fn model_key_post(o: App, n: App, code: KeyCode, r: KeyAction) -> bool {
    &&& ({
                let p = o.model_picker.unwrap();
                let cnt = p.models@.len();
                match code {
                    KeyCode::Up => r is Nothing && n == (App {
                        model_picker: Some(crate::tui::app::ModelPicker { selected: up(p.selected), ..p }),
                        ..o
                    }),
                    KeyCode::Down => r is Nothing && n == (App {
                        model_picker: Some(crate::tui::app::ModelPicker { selected: down(p.selected, cnt), ..p }),
                        ..o
                    }),
                    KeyCode::PageUp => r is Nothing && n == (App {
                        model_picker: Some(crate::tui::app::ModelPicker { selected: page_up(p.selected), ..p }),
                        ..o
                    }),
                    KeyCode::PageDown => r is Nothing && n == (App {
                        model_picker: Some(crate::tui::app::ModelPicker { selected: page_down(p.selected, cnt), ..p }),
                        ..o
                    }),
                    KeyCode::Enter => if p.selected < cnt {
                        let item = p.models@[p.selected as int];
                        &&& r matches KeyAction::Send(UiCommand::SetModel { provider, model }) && provider@
                            == item.provider@ && model@ == item.id@
                        &&& n.status.model@ == item.name@
                        &&& n.status.provider@ == item.provider@
                        &&& n == (App {
                            model_picker: None,
                            status: StatusInfo {
                                model: n.status.model,
                                provider: n.status.provider,
                                ..o.status
                            },
                            ..o
                        })
                    } else {
                        r is Nothing && n == (App { model_picker: None, ..o })
                    },
                    KeyCode::Esc => r is Nothing && n == (App { model_picker: None, ..o }),
                    _ => r is Nothing && n == o,
                }
            })
}

/// Keys while the model picker is open: move and page, Enter picks the
/// model (shown in the status line, sent to the agent), Esc closes.
pub fn model_picker_key(app: &mut App, code: KeyCode) -> (r: KeyAction)
    requires
        old(app).model_picker matches Some(p) && p.selected + 10 <= usize::MAX,
    ensures
        model_key_post(*old(app), *final(app), code, r),

{
    match code {
        KeyCode::Up | KeyCode::Down | KeyCode::PageUp | KeyCode::PageDown => {
            let mut p = app.model_picker.take().unwrap();
            let n = p.models.len();
            match code {
                KeyCode::Up => {
                    if p.selected > 0 {
                        p.selected = p.selected - 1;
                    }
                },
                KeyCode::Down => {
                    if p.selected < n && p.selected + 1 < n {
                        p.selected = p.selected + 1;
                    }
                },
                KeyCode::PageUp => {
                    p.selected = p.selected.saturating_sub(10);
                },
                _ => {
                    let last = n.saturating_sub(1);
                    p.selected = if p.selected + 10 < last {
                        p.selected + 10
                    } else {
                        last
                    };
                },
            }
            app.model_picker = Some(p);
            KeyAction::Nothing
        },
        KeyCode::Enter => {
            let p = app.model_picker.take().unwrap();
            if p.selected < p.models.len() {
                let item = &p.models[p.selected];
                app.status.model = item.name.clone();
                app.status.provider = item.provider.clone();
                KeyAction::Send(UiCommand::SetModel { provider: item.provider.clone(), model: item.id.clone() })
            } else {
                KeyAction::Nothing
            }
        },
        KeyCode::Esc => {
            app.model_picker = None;
            KeyAction::Nothing
        },
        _ => KeyAction::Nothing,
    }
}

/// Keys while the command palette is open: move among the filtered
/// What `palette_key` does with a key: move the selection, edit the filter,
/// run the selected command (the last one when the selection is past the
/// end), or close the palette.
pub open spec fn palette_key_post(o: App, f: App, code: KeyCode, r: KeyAction) -> bool {
    ({
        let p = o.command_palette.unwrap();
        let cmds = crate::tui::app::palette_spec(p);
        match code {
            KeyCode::Up => r is Nothing && f == (App {
                command_palette: Some(crate::tui::app::CommandPalette { selected: up(p.selected), ..p }),
                ..o
            }),
            KeyCode::Down => r is Nothing && f == (App {
                command_palette: Some(crate::tui::app::CommandPalette { selected: down(p.selected, cmds.len()), ..p }),
                ..o
            }),
            KeyCode::Char(c) => {
                &&& r is Nothing
                &&& f.command_palette matches Some(n) && n.filter@ == p.filter@.push(c) && n.selected == 0
                    && n.commands == p.commands
                &&& f == (App { command_palette: f.command_palette, ..o })
            },
            KeyCode::Backspace => {
                &&& r is Nothing
                &&& f.command_palette matches Some(n) && n.filter@ == popped(p.filter@) && n.selected == 0
                    && n.commands == p.commands
                &&& f == (App { command_palette: f.command_palette, ..o })
            },
            KeyCode::Enter => if cmds.len() == 0 {
                r is Nothing && f == (App { command_palette: None, ..o })
            } else {
                let i = if p.selected < cmds.len() - 1 { p.selected as int } else { cmds.len() - 1 };
                command_post(App { command_palette: None, ..o }, f, cmds[i], r)
            },
            KeyCode::Esc => r is Nothing && f == (App { command_palette: None, ..o }),
            _ => r is Nothing && f == o,
        }
    })
}

/// commands, type to filter, Enter runs the picked command, Esc closes.
pub fn palette_key(app: &mut App, code: KeyCode) -> (r: KeyAction)
    requires
        old(app).wf(),
        old(app).pending < usize::MAX,
        old(app).command_palette is Some,
    ensures
        final(app).wf(),
        palette_key_post(*old(app), *final(app), code, r),
{
    match code {
        KeyCode::Up => {
            let mut p = app.command_palette.take().unwrap();
            if p.selected > 0 {
                p.selected = p.selected - 1;
            }
            app.command_palette = Some(p);
            KeyAction::Nothing
        },
        KeyCode::Down => {
            let mut p = app.command_palette.take().unwrap();
            let cmds = App::palette_commands(&p);
            if p.selected < cmds.len() && p.selected + 1 < cmds.len() {
                p.selected = p.selected + 1;
            }
            app.command_palette = Some(p);
            KeyAction::Nothing
        },
        KeyCode::Char(c) => {
            let mut p = app.command_palette.take().unwrap();
            p.filter = push_char(&p.filter, c);
            p.selected = 0;
            app.command_palette = Some(p);
            KeyAction::Nothing
        },
        KeyCode::Backspace => {
            let mut p = app.command_palette.take().unwrap();
            p.filter = pop_char(&p.filter);
            p.selected = 0;
            app.command_palette = Some(p);
            KeyAction::Nothing
        },
        KeyCode::Enter => {
            let p = app.command_palette.take().unwrap();
            let cmds = App::palette_commands(&p);
            if cmds.len() > 0 {
                let last = cmds.len() - 1;
                let i = if p.selected < last {
                    p.selected
                } else {
                    last
                };
                let r = run_command(app, cmds[i]);
                app.command_palette = None;
                r
            } else {
                KeyAction::Nothing
            }
        },
        KeyCode::Esc => {
            app.command_palette = None;
            KeyAction::Nothing
        },
        _ => KeyAction::Nothing,
    }
}

/// What `question_key` does with a key.
pub open spec fn question_key_post(o: App, n: App, code: KeyCode, r: KeyAction) -> bool {
    &&& ({
                let q = o.pending_question.unwrap();
                match code {
                    KeyCode::Up => r is Nothing && n == (App {
                        pending_question: Some(QuestionRequest { selected: up(q.selected), ..q }),
                        ..o
                    }),
                    KeyCode::Down => r is Nothing && n == (App {
                        pending_question: Some(QuestionRequest { selected: down(q.selected, q.options@.len()), ..q }),
                        ..o
                    }),
                    KeyCode::Enter => {
                        &&& n == (App { pending_question: None, ..o })
                        &&& match q.respond {
                            Some(tx) => r matches KeyAction::Answer(t, a) && t == tx && if q.selected < q.options@.len() {
                                a matches Some(x) && x@ == q.options@[q.selected as int]@
                            } else {
                                a is None
                            },
                            None => r is Nothing,
                        }
                    },
                    KeyCode::Esc => {
                        &&& n == (App { pending_question: None, ..o })
                        &&& match q.respond {
                            Some(tx) => r matches KeyAction::Answer(t, a) && t == tx && a is None,
                            None => r is Nothing,
                        }
                    },
                    _ => r is Nothing && n == o,
                }
            })
}

/// Keys while a question is pending: move among the options; Enter answers
/// with the selected option, Esc with none.
pub fn question_key(app: &mut App, code: KeyCode) -> (r: KeyAction)
    requires
        old(app).pending_question is Some,
    ensures
        question_key_post(*old(app), *final(app), code, r),

{
    match code {
        KeyCode::Up => {
            let mut q = app.pending_question.take().unwrap();
            if q.selected > 0 {
                q.selected = q.selected - 1;
            }
            app.pending_question = Some(q);
            KeyAction::Nothing
        },
        KeyCode::Down => {
            let mut q = app.pending_question.take().unwrap();
            if q.selected < q.options.len() && q.selected + 1 < q.options.len() {
                q.selected = q.selected + 1;
            }
            app.pending_question = Some(q);
            KeyAction::Nothing
        },
        KeyCode::Enter => {
            let q = app.pending_question.take().unwrap();
            match q.respond {
                Some(tx) => {
                    let answer = if q.selected < q.options.len() {
                        Some(q.options[q.selected].clone())
                    } else {
                        None
                    };
                    KeyAction::Answer(tx, answer)
                },
                None => KeyAction::Nothing,
            }
        },
        KeyCode::Esc => {
            let q = app.pending_question.take().unwrap();
            match q.respond {
                Some(tx) => KeyAction::Answer(tx, None),
                None => KeyAction::Nothing,
            }
        },
        _ => KeyAction::Nothing,
    }
}

/// The answer to a pending permission request: it is closed, and its reply
/// channel (if any) gets the choice.
fn answer_permission(app: &mut App, choice: Choice) -> (r: KeyAction)
    requires
        old(app).pending_permission is Some,
    ensures
        *final(app) == (App { pending_permission: None, ..*old(app) }),
        match old(app).pending_permission.unwrap().respond {
            Some(tx) => r matches KeyAction::Permit(t, c) && t == tx && c == choice,
            None => r is Nothing,
        },
{
    let p = app.pending_permission.take().unwrap();
    match p.respond {
        Some(tx) => KeyAction::Permit(tx, choice),
        None => KeyAction::Nothing,
    }
}

/// What `permission_key` does with a key.
pub open spec fn permission_key_post(o: App, n: App, code: KeyCode, r: KeyAction) -> bool {
    &&& ({
                let p = o.pending_permission.unwrap();
                let closed = n == (App { pending_permission: None, ..o });
                let answered = |c: Choice|
                    closed && match p.respond {
                        Some(tx) => r matches KeyAction::Permit(t, c2) && t == tx && c2 == c,
                        None => r is Nothing,
                    };
                if p.entering_feedback {
                    match code {
                        KeyCode::Char(c) => {
                            &&& r is Nothing
                            &&& n.pending_permission matches Some(n) && n.feedback@ == p.feedback@.push(c)
                                && n.entering_feedback && n.prompt == p.prompt && n.respond == p.respond
                            &&& n == (App { pending_permission: n.pending_permission, ..o })
                        },
                        KeyCode::Backspace => {
                            &&& r is Nothing
                            &&& n.pending_permission matches Some(n) && n.feedback@ == popped(p.feedback@)
                                && n.entering_feedback && n.prompt == p.prompt && n.respond == p.respond
                            &&& n == (App { pending_permission: n.pending_permission, ..o })
                        },
                        KeyCode::Enter => closed && match p.respond {
                            Some(tx) => r matches KeyAction::Permit(t, Choice::Deny { feedback }) && t == tx && if crate::text::trim_spec(
                                p.feedback@,
                            ).len() == 0 {
                                feedback is None
                            } else {
                                feedback matches Some(f) && f@ == crate::text::trim_spec(p.feedback@)
                            },
                            None => r is Nothing,
                        },
                        KeyCode::Esc => {
                            &&& r is Nothing
                            &&& n.pending_permission matches Some(n) && n.feedback@.len() == 0 && !n.entering_feedback
                                && n.prompt == p.prompt && n.respond == p.respond
                            &&& n == (App { pending_permission: n.pending_permission, ..o })
                        },
                        _ => r is Nothing && n == o,
                    }
                } else {
                    match code {
                        KeyCode::Enter | KeyCode::Char('y') => answered(Choice::Allow),
                        KeyCode::Char('a') | KeyCode::Char('s') => answered(Choice::AllowForSession),
                        KeyCode::Char('w') => answered(Choice::Always),
                        KeyCode::Char('r') => r is Nothing && n == (App {
                            pending_permission: Some(PermissionRequest { entering_feedback: true, ..p }),
                            ..o
                        }),
                        KeyCode::Esc | KeyCode::Char('n') => answered(Choice::Deny { feedback: None }),
                        _ => r is Nothing && n == o,
                    }
                }
            })
}

/// Keys while a permission request is pending. Typing a reason: characters
/// edit it, Enter denies with it (none when blank), Esc stops typing. Else:
/// Enter or `y` allows, `a` or `s` allows for the session, `w` always, `r`
/// starts typing a reason, Esc or `n` denies.
pub fn permission_key(app: &mut App, code: KeyCode) -> (r: KeyAction)
    requires
        old(app).pending_permission is Some,
    ensures
        permission_key_post(*old(app), *final(app), code, r),

{
    let entering = match &app.pending_permission {
        Some(p) => p.entering_feedback,
        None => false,
    };
    if entering {
        match code {
            KeyCode::Char(c) => {
                let mut p = app.pending_permission.take().unwrap();
                p.feedback = push_char(&p.feedback, c);
                app.pending_permission = Some(p);
                KeyAction::Nothing
            },
            KeyCode::Backspace => {
                let mut p = app.pending_permission.take().unwrap();
                p.feedback = pop_char(&p.feedback);
                app.pending_permission = Some(p);
                KeyAction::Nothing
            },
            KeyCode::Enter => {
                let p = app.pending_permission.take().unwrap();
                match p.respond {
                    Some(tx) => {
                        let t = trim_chars(&chars_of(p.feedback.as_str()));
                        let feedback = if t.len() == 0 {
                            None
                        } else {
                            Some(string_of(&t))
                        };
                        KeyAction::Permit(tx, Choice::Deny { feedback })
                    },
                    None => KeyAction::Nothing,
                }
            },
            KeyCode::Esc => {
                let mut p = app.pending_permission.take().unwrap();
                p.entering_feedback = false;
                p.feedback = String::new();
                app.pending_permission = Some(p);
                KeyAction::Nothing
            },
            _ => KeyAction::Nothing,
        }
    } else {
        match code {
            KeyCode::Enter | KeyCode::Char('y') => answer_permission(app, Choice::Allow),
            KeyCode::Char('a') | KeyCode::Char('s') => answer_permission(app, Choice::AllowForSession),
            KeyCode::Char('w') => answer_permission(app, Choice::Always),
            KeyCode::Char('r') => {
                let mut p = app.pending_permission.take().unwrap();
                p.entering_feedback = true;
                app.pending_permission = Some(p);
                KeyAction::Nothing
            },
            KeyCode::Esc | KeyCode::Char('n') => answer_permission(app, Choice::Deny { feedback: None }),
            _ => KeyAction::Nothing,
        }
    }
}

/// The key after the leader (Ctrl+X): a letter runs a command, `y` copies
/// The command a letter runs after the leader key.
pub open spec fn leader_command(code: KeyCode) -> Option<crate::tui::app::Command> {
    match code {
        KeyCode::Char('n') => Some(crate::tui::app::Command::NewSession),
        KeyCode::Char('l') => Some(crate::tui::app::Command::Sessions),
        KeyCode::Char('m') => Some(crate::tui::app::Command::Models),
        KeyCode::Char('g') => Some(crate::tui::app::Command::Agent),
        KeyCode::Char('s') => Some(crate::tui::app::Command::Stats),
        KeyCode::Char('c') => Some(crate::tui::app::Command::Clear),
        KeyCode::Char('h') => Some(crate::tui::app::Command::Help),
        KeyCode::Char('d') => Some(crate::tui::app::Command::Debug),
        KeyCode::Char('q') => Some(crate::tui::app::Command::Quit),
        _ => None,
    }
}

/// What the key after the leader does: the leader is released; `y` copies
/// the selected block's text (or the last reply's), a command letter runs its
/// command, any other key does nothing more.
pub open spec fn leader_key_post(o: App, f: App, code: KeyCode, r: KeyAction) -> bool {
    let o1 = App { leader_active: false, ..o };
    if code == KeyCode::Char('y') {
        let t = crate::tui::app::copy_target_spec(o.content@, o.selected);
        if t.len() > 0 {
            &&& r matches KeyAction::Clipboard(x) && x@ == t
            &&& f.toast matches Some(m) && m.0@ == "Copied "@ + crate::text::decimal(t.len()) + " chars."@
            &&& f == (App { toast: f.toast, ..o1 })
        } else {
            r is Nothing && f == o1
        }
    } else {
        match leader_command(code) {
            Some(c) => command_post(o1, f, c, r),
            None => r is Nothing && f == o1,
        }
    }
}

/// the selected or last output; the leader is cleared either way.
pub fn leader_key(app: &mut App, code: KeyCode) -> (r: KeyAction)
    requires
        old(app).wf(),
        old(app).pending < usize::MAX,
    ensures
        final(app).wf(),
        leader_key_post(*old(app), *final(app), code, r),
{
    app.leader_active = false;
    let cmd = match code {
        KeyCode::Char('n') => Some(crate::tui::app::Command::NewSession),
        KeyCode::Char('l') => Some(crate::tui::app::Command::Sessions),
        KeyCode::Char('m') => Some(crate::tui::app::Command::Models),
        KeyCode::Char('g') => Some(crate::tui::app::Command::Agent),
        KeyCode::Char('s') => Some(crate::tui::app::Command::Stats),
        KeyCode::Char('c') => Some(crate::tui::app::Command::Clear),
        KeyCode::Char('h') => Some(crate::tui::app::Command::Help),
        KeyCode::Char('d') => Some(crate::tui::app::Command::Debug),
        KeyCode::Char('q') => Some(crate::tui::app::Command::Quit),
        KeyCode::Char('y') => {
            let text = app.copy_target_text();
            let v = chars_of(text.as_str());
            if v.len() > 0 {
                let mut m = chars_of("Copied ");
                crate::text::push_decimal(&mut m, v.len());
                push_str_chars(&mut m, " chars.");
                app.show_toast(string_of(&m).as_str());
                return KeyAction::Clipboard(text);
            }
            None
        },
        _ => None,
    };
    match cmd {
        Some(c) => run_command(app, c),
        None => KeyAction::Nothing,
    }
}

/// `s` without any leading copies of `p` (as `str::trim_start_matches`).
pub open spec fn strip_repeated(s: Seq<char>, p: Seq<char>) -> Seq<char>
    decreases s.len(),
{
    if p.len() > 0 && starts_with(s, p) {
        strip_repeated(s.skip(p.len() as int), p)
    } else {
        s
    }
}

fn strip_repeated_of(s: &Vec<char>, p: &Vec<char>) -> (r: Vec<char>)
    ensures
        r@ == strip_repeated(s@, p@),
{
    let mut i: usize = 0;
    assert(s@.skip(0) =~= s@);
    if p.len() == 0 {
        return slice_chars(s, 0, s.len());
    }
    while i < s.len() && crate::text::matches_at(s, i, p)
        invariant
            i <= s@.len(),
            p@.len() > 0,
            strip_repeated(s@, p@) == strip_repeated(s@.skip(i as int), p@),
        decreases s@.len() - i,
    {
        assert(s@.skip(i as int).subrange(0, p@.len() as int) =~= s@.subrange(i as int, i + p@.len()));
        assert(s@.skip(i as int).take(p@.len() as int) =~= s@.subrange(i as int, i + p@.len()));
        assert(s@.skip(i as int).skip(p@.len() as int) =~= s@.skip(i + p@.len()));
        i = i + p.len();
    }
    let r = slice_chars(s, i, s.len());
    proof {
        if i < s@.len() {
            if starts_with(s@.skip(i as int), p@) {
                assert(s@.skip(i as int).take(p@.len() as int) =~= s@.subrange(i as int, i + p@.len()));
            }
        } else {
            assert(s@.skip(i as int).len() == 0);
        }
    }
    assert(r@ =~= s@.skip(i as int));
    r
}

/// The argument of a `/<cmd> ` command: after the prefix (and repeats of
/// it), trimmed.
pub open spec fn slash_arg(t: Seq<char>, prefix: Seq<char>) -> Seq<char> {
    crate::text::trim_spec(strip_repeated(t, prefix))
}

/// What the slash command `t` does to the app, and what it returns;
/// `None`, with nothing changed, when `t` is no known command.
pub open spec fn slash_post(o: App, f: App, t: Seq<char>, r: Option<KeyAction>) -> bool {
    if t == "/models"@ {
        r matches Some(KeyAction::Nothing) && f.model_picker is Some
    } else if t == "/agent"@ {
        r matches Some(KeyAction::Nothing) && f.agent_picker is Some
    } else if t == "/mode"@ {
        r matches Some(KeyAction::Nothing) && f.mode_picker is Some
    } else if starts_with(t, "/mode "@) {
        match crate::agent::mode_named(slash_arg(t, "/mode "@)) {
            Some(m) => (r matches Some(KeyAction::Send(UiCommand::SetMode(m2))) && m2 == m) && f.mode == m,
            None => r matches Some(KeyAction::Nothing) && (f.toast matches Some(toast) && toast.0@ == "Unknown mode: "@
                + slash_arg(t, "/mode "@) + ". Available: plan, build, auto"@),
        }
    } else if t == "/sessions"@ {
        r matches Some(KeyAction::OpenSessions) && f == o
    } else if t == "/new"@ {
        r matches Some(KeyAction::NewSession) && f == o
    } else if t == "/status"@ {
        r matches Some(KeyAction::Nothing) && blocks_view(f.content@) == blocks_view(o.content@).push(
            BlockV::Assistant(status_text(o.status)),
        )
    } else if t == "/stats"@ {
        r matches Some(KeyAction::Nothing) && blocks_view(f.content@) == blocks_view(o.content@).push(
            BlockV::Assistant(stats_text(blocks_view(o.content@), o.status)),
        )
    } else if t == "/compact"@ {
        r matches Some(KeyAction::Send(UiCommand::Compact))
    } else if t == "/fork"@ {
        r matches Some(KeyAction::Fork) && f == o
    } else if starts_with(t, "/rename "@) {
        if slash_arg(t, "/rename "@).len() == 0 {
            r matches Some(KeyAction::Nothing)
        } else {
            r matches Some(KeyAction::Rename(name)) && name@ == slash_arg(t, "/rename "@) && f == o
        }
    } else if t == "/help"@ {
        r matches Some(KeyAction::Nothing) && blocks_view(f.content@) == blocks_view(o.content@).push(
            BlockV::Assistant(help_text()),
        )
    } else if t == "/clear"@ {
        r matches Some(KeyAction::Nothing) && f.content@.len() == 0
    } else if t == "/debug"@ {
        r matches Some(KeyAction::Nothing) && blocks_view(f.content@) == blocks_view(o.content@).push(
            BlockV::Assistant(debug_text(o.status)),
        )
    } else if t == "/quit"@ || t == "/exit"@ {
        r matches Some(KeyAction::Nothing) && f == (App { quit: true, ..o })
    } else {
        r is None && f == o
    }
}

/// Whether `t` is a slash command that the composer knows.
pub open spec fn slash_known(t: Seq<char>) -> bool {
    ||| t == "/models"@
    ||| t == "/agent"@
    ||| t == "/mode"@
    ||| starts_with(t, "/mode "@)
    ||| t == "/sessions"@
    ||| t == "/new"@
    ||| t == "/status"@
    ||| t == "/stats"@
    ||| t == "/compact"@
    ||| t == "/fork"@
    ||| starts_with(t, "/rename "@)
    ||| t == "/help"@
    ||| t == "/clear"@
    ||| t == "/debug"@
    ||| t == "/quit"@
    ||| t == "/exit"@
}

/// Slash commands typed in the composer. `None` when the text is no known
/// command (it is then sent as a prompt).
pub fn slash_command(app: &mut App, trimmed: &Vec<char>) -> (r: Option<KeyAction>)
    requires
        old(app).wf(),
        old(app).pending < usize::MAX,
    ensures
        final(app).wf(),
        slash_post(*old(app), *final(app), trimmed@, r),
{
    let t = trimmed;
    proof {
        reveal_strlit("/models");
        reveal_strlit("/mode ");
        reveal_strlit("/mode");
        reveal_strlit("/agent");
        reveal_strlit("/sessions");
        reveal_strlit("/new");
        reveal_strlit("/status");
        reveal_strlit("/stats");
        reveal_strlit("/compact");
        reveal_strlit("/fork");
        reveal_strlit("/rename ");
        reveal_strlit("/help");
        reveal_strlit("/clear");
        reveal_strlit("/debug");
        reveal_strlit("/quit");
        reveal_strlit("/exit");
    }
    if crate::text::eq_str(t, "/models") {
        app.open_model_picker();
        return Some(KeyAction::Nothing);
    }
    if crate::text::eq_str(t, "/agent") {
        app.open_agent_picker();
        return Some(KeyAction::Nothing);
    }
    if crate::text::eq_str(t, "/mode") {
        app.open_mode_picker();
        return Some(KeyAction::Nothing);
    }
    let mode_prefix = chars_of("/mode ");
    if starts_with_chars(t, &mode_prefix) {
        let name = trim_chars(&strip_repeated_of(t, &mode_prefix));
        match AgentMode::from_str(string_of(&name).as_str()) {
            Some(mode) => {
                let r = set_mode(app, mode);
                app.input.clear();
                app.suggestions.clear();
                app.mention_picker = None;
                return Some(r);
            },
            None => {
                let mut m = chars_of("Unknown mode: ");
                crate::text::extend_chars(&mut m, &name);
                push_str_chars(&mut m, ". Available: plan, build, auto");
                app.show_toast(string_of(&m).as_str());
                return Some(KeyAction::Nothing);
            },
        }
    }
    if crate::text::eq_str(t, "/sessions") {
        return Some(KeyAction::OpenSessions);
    }
    if crate::text::eq_str(t, "/new") {
        return Some(run_command(app, crate::tui::app::Command::NewSession));
    }
    if crate::text::eq_str(t, "/status") {
        return Some(run_command(app, crate::tui::app::Command::Status));
    }
    if crate::text::eq_str(t, "/stats") {
        return Some(run_command(app, crate::tui::app::Command::Stats));
    }
    if crate::text::eq_str(t, "/compact") {
        app.show_toast("Compacting conversation…");
        return Some(KeyAction::Send(UiCommand::Compact));
    }
    if crate::text::eq_str(t, "/fork") {
        return Some(KeyAction::Fork);
    }
    let rename_prefix = chars_of("/rename ");
    if starts_with_chars(t, &rename_prefix) {
        let title = trim_chars(&strip_repeated_of(t, &rename_prefix));
        if title.len() == 0 {
            app.show_toast("Usage: /rename <title>");
            return Some(KeyAction::Nothing);
        }
        return Some(KeyAction::Rename(string_of(&title)));
    }
    if crate::text::eq_str(t, "/help") {
        return Some(run_command(app, crate::tui::app::Command::Help));
    }
    if crate::text::eq_str(t, "/clear") {
        app.clear_view();
        return Some(KeyAction::Nothing);
    }
    if crate::text::eq_str(t, "/debug") {
        return Some(run_command(app, crate::tui::app::Command::Debug));
    }
    if crate::text::eq_str(t, "/quit") || crate::text::eq_str(t, "/exit") {
        app.quit = true;
        return Some(KeyAction::Nothing);
    }
    None
}

/// The keys the mode picker takes; it lets the others through.
pub open spec fn mode_takes(code: KeyCode) -> bool {
    code == KeyCode::Up || code == KeyCode::Down || code == KeyCode::Enter || code == KeyCode::Esc
}

/// No dialog or picker is waiting for keys.
pub open spec fn no_dialog(app: App) -> bool {
    &&& app.diff_viewer is None
    &&& app.session_picker is None
    &&& app.mode_picker is None
    &&& app.agent_picker is None
    &&& app.model_picker is None
    &&& app.command_palette is None
    &&& app.pending_question is None
    &&& app.pending_permission is None
    &&& !app.leader_active
}

/// What the UI may rely on before a key: a consistent composer, room for
/// the blocks a key can add, and scroll positions that can still move.
pub open spec fn key_ready(app: App) -> bool {
    &&& app.wf()
    &&& app.pending + 2 < usize::MAX
    &&& (app.diff_viewer matches Some(d) ==> d.scroll + 10 <= usize::MAX)
    &&& (app.session_picker matches Some(p) ==> p.selected + 10 <= usize::MAX)
    &&& (app.model_picker matches Some(p) ==> p.selected + 10 <= usize::MAX)
    &&& (app.history_idx matches Some(i) ==> i < app.history@.len())
}

/// The body of the last diff block among the first `n` blocks.
pub open spec fn last_diff(c: Seq<BlockV>, n: int) -> Option<Seq<char>>
    decreases n,
{
    if n <= 0 || n > c.len() {
        None
    } else {
        match c[n - 1] {
            BlockV::Diff(_, b) => Some(b),
            _ => last_diff(c, n - 1),
        }
    }
}

/// The body of the last diff block in the timeline.
fn last_diff_body(content: &Vec<UiBlock>) -> (r: Option<String>)
    ensures
        match last_diff(blocks_view(content@), content@.len() as int) {
            Some(b) => r matches Some(x) && x@ == b,
            None => r is None,
        },
{
    let mut k = content.len();
    while k > 0
        invariant
            k <= content@.len(),
            last_diff(blocks_view(content@), content@.len() as int) == last_diff(blocks_view(content@), k as int),
        decreases k,
    {
        if let UiBlock::Diff { body, .. } = &content[k - 1] {
            return Some(body.clone());
        }
        k -= 1;
    }
    None
}

/// Whether a key goes to the composer: no dialog, picker or leader key is
/// open, no timeline block is selected, no mention picker is shown, and the
/// key is neither a Control shortcut nor the Super+C copy.
pub open spec fn reaches_composer(app: App, key: KeyEvent) -> bool {
    &&& no_dialog(app)
    &&& app.selected is None
    &&& app.mention_picker is None
    &&& !key.modifiers.control
    &&& !(key.modifiers.sup && key.code == KeyCode::Char('c'))
}

/// The app after the editor action `a` in the composer: the suggestions and
/// the mention picker follow the new text, nothing else changes.
pub open spec fn edited(o: App, f: App, a: EditorAction) -> bool {
    &&& f.input@ == o.input@.apply(a)
    &&& crate::goal::strs(f.suggestions@) == suggestions_spec(crate::text::trim_spec(text_spec(f.input@.lines)), o.status)
    &&& picker_for(f.input@, o.file_index, f.mention_picker)
    &&& f == (App { input: f.input, suggestions: f.suggestions, mention_picker: f.mention_picker, ..o })
}

/// The prompt in a key's answer, if it submits one.
pub open spec fn submitted(r: KeyAction) -> Option<String> {
    match r {
        KeyAction::Submit(p) => Some(p),
        _ => None,
    }
}

/// The text that a copy or cut puts on the clipboard: the composer's
/// selection.
pub open spec fn copied(o: App, a: EditorAction) -> Option<Seq<char>> {
    if a is Copy || a is Cut {
        o.input@.selected()
    } else {
        None
    }
}

/// What a key that reaches the composer does. Esc cancels a running turn
/// (following the output again) or empties the composer; Enter submits the
/// text, or runs it as a slash command; Alt or Shift with Enter breaks the
/// line; Up and Down move the cursor, or recall history at the first and
/// last lines; PageUp and PageDown scroll; Tab shows or hides tool output;
/// Shift-Tab switches to the next mode; Alt-P on a paste placeholder puts
/// the pasted text back; other keys edit the text through the key map, a
/// paste with an empty clipboard asking for the system's.
/// While the agent works, the composer takes no edits.
pub open spec fn composer_key_post(o: App, f: App, key: KeyEvent, mac: bool, r: KeyAction) -> bool {
    let m = key.modifiers;
    match key.code {
        KeyCode::Esc => if o.busy {
            r is Cancel && f == (App { auto_scroll: true, ..o })
        } else {
            &&& r is Nothing
            &&& cleared(o.input, f.input)
            &&& f.suggestions@.len() == 0
            &&& f == (App { mouse_sel: None, input: f.input, suggestions: f.suggestions, ..o })
        },
        KeyCode::Enter => if m.alt || m.shift {
            r is Nothing && if o.busy {
                f == o
            } else {
                edited(o, f, EditorAction::InsertNewline)
            }
        } else if o.busy {
            r is Nothing && f == o
        } else if slash_known(crate::text::trim_spec(text_spec(o.input@.lines))) {
            slash_post(o, f, crate::text::trim_spec(text_spec(o.input@.lines)), Some(r))
        } else {
            (r is Nothing || r is Submit) && submit_post(o, f, submitted(r))
        },
        KeyCode::Up => r is Nothing && if o.busy {
            f == o
        } else if o.input@.cursor.row == 0 {
            history_prev_post(o, f)
        } else {
            f.input@ == o.input@.apply(EditorAction::MoveUp) && f == (App { input: f.input, ..o })
        },
        KeyCode::Down => r is Nothing && if o.busy {
            f == o
        } else if o.input@.cursor.row >= o.input@.lines.len() - 1 {
            history_next_post(o, f)
        } else {
            f.input@ == o.input@.apply(EditorAction::MoveDown) && f == (App { input: f.input, ..o })
        },
        KeyCode::PageUp => r is Nothing && f == (App {
            auto_scroll: false,
            scroll: if o.scroll >= 10 { (o.scroll - 10) as usize } else { 0 },
            ..o
        }),
        KeyCode::PageDown => r is Nothing && f == (App {
            scroll: if o.scroll + 10 <= usize::MAX { (o.scroll + 10) as usize } else { usize::MAX },
            ..o
        }),
        KeyCode::Tab => r is Nothing && f == (App { show_tool_output: !o.show_tool_output, ..o }),
        KeyCode::BackTab => {
            let m = crate::agent::next_mode(o.mode);
            &&& r matches KeyAction::Send(UiCommand::SetMode(m2)) && m2 == m
            &&& f.toast matches Some(t) && t.0@ == (if o.busy {
                "Mode → "@ + crate::agent::mode_label(m) + " (applies to the next turn)"@
            } else {
                "Mode → "@ + crate::agent::mode_label(m)
            })
            &&& f == (App { mode: m, mode_picker: None, toast: f.toast, ..o })
        },
        _ => if o.busy {
            r is Nothing && f == o
        } else if key.code == KeyCode::Char('p') && m.alt && o.input@.selected() is None && crate::tui::app::paste_for(
            o.pastes@,
            crate::tui::editor::line_text(o.input@.lines[o.input@.cursor.row as int]),
        ) is Some {
            r is Nothing && crate::tui::app::paste_expand_post(o, f, true)
        } else {
            match crate::tui::keys::map_key_spec(key, mac) {
                None => r is Nothing && f == o,
                Some(a) => if a is PasteClipboard && o.input@.clipboard.len() == 0 {
                    r is PasteSystemClipboard && f == o
                } else {
                    &&& edited(o, f, a)
                    &&& match copied(o, a) {
                        Some(t) => r matches KeyAction::Clipboard(x) && x@ == t,
                        None => r is Nothing,
                    }
                },
            }
        },
    }
}

/// Enter in the composer.
fn enter_key(app: &mut App, key: KeyEvent) -> (r: KeyAction)
    requires
        key_ready(*old(app)),
        key.code == KeyCode::Enter,
    ensures
        final(app).wf(),
        composer_key_post(*old(app), *final(app), key, false, r),
{
    let m = key.modifiers;
    if m.alt || m.shift {
        if !app.busy {
            app.input.apply(EditorAction::InsertNewline);
            app.update_suggestions();
            app.update_mentions();
        }
        return KeyAction::Nothing;
    }
    if app.busy {
        return KeyAction::Nothing;
    }
    let text = app.input.text();
    let trimmed = trim_chars(&chars_of(text.as_str()));
    if let Some(r) = slash_command(app, &trimmed) {
        return r;
    }
    // `submit` empties the suggestions along with the composer.
    match app.submit() {
        Some(prompt) => KeyAction::Submit(prompt),
        None => KeyAction::Nothing,
    }
}

/// A key that edits the composer's text.
fn edit_key(app: &mut App, key: KeyEvent, mac: bool) -> (r: KeyAction)
    requires
        key_ready(*old(app)),
        !(key.code is Esc || key.code is Enter || key.code is Up || key.code is Down || key.code is PageUp
            || key.code is PageDown || key.code is Tab || key.code is BackTab),
    ensures
        final(app).wf(),
        composer_key_post(*old(app), *final(app), key, mac, r),
{
    let code = key.code;
    let m = key.modifiers;
    if app.busy {
        return KeyAction::Nothing;
    }
    if code == KeyCode::Char('p') && m.alt && app.input.selected_text().is_none() {
        if app.expand_paste_at_cursor() {
            return KeyAction::Nothing;
        }
    }
    match crate::tui::keys::map_key(key, mac) {
        Some(action) => {
            let paste_clip = match action {
                EditorAction::PasteClipboard => true,
                _ => false,
            };
            if paste_clip && app.input.clipboard_is_empty() {
                return KeyAction::PasteSystemClipboard;
            }
            let copying = match action {
                EditorAction::Copy | EditorAction::Cut => true,
                _ => false,
            };
            let clip = if copying {
                app.input.selected_text()
            } else {
                None
            };
            app.input.apply(action);
            app.update_suggestions();
            app.update_mentions();
            match clip {
                Some(text) => KeyAction::Clipboard(text),
                None => KeyAction::Nothing,
            }
        },
        None => KeyAction::Nothing,
    }
}

/// Keys of the composer.
fn composer_key(app: &mut App, key: KeyEvent, mac: bool) -> (r: KeyAction)
    requires
        key_ready(*old(app)),
    ensures
        final(app).wf(),
        composer_key_post(*old(app), *final(app), key, mac, r),
{
    let code = key.code;
    match code {
        KeyCode::Esc => {
            if app.busy {
                app.auto_scroll = true;
                KeyAction::Cancel
            } else {
                app.mouse_sel = None;
                app.input.clear();
                app.suggestions.clear();
                KeyAction::Nothing
            }
        },
        KeyCode::Enter => enter_key(app, key),
        KeyCode::Up => {
            if !app.busy {
                if app.input.cursor().row == 0 {
                    app.history_prev();
                } else {
                    app.input.apply(EditorAction::MoveUp);
                }
            }
            KeyAction::Nothing
        },
        KeyCode::Down => {
            if !app.busy {
                if app.input.cursor().row >= app.input.line_count() - 1 {
                    app.history_next();
                } else {
                    app.input.apply(EditorAction::MoveDown);
                }
            }
            KeyAction::Nothing
        },
        KeyCode::PageUp => {
            app.auto_scroll = false;
            app.scroll = app.scroll.saturating_sub(10);
            KeyAction::Nothing
        },
        KeyCode::PageDown => {
            app.scroll = app.scroll.saturating_add(10);
            KeyAction::Nothing
        },
        KeyCode::Tab => {
            app.show_tool_output = !app.show_tool_output;
            KeyAction::Nothing
        },
        KeyCode::BackTab => {
            let mode = app.cycle_mode();
            set_mode(app, mode)
        },
        _ => edit_key(app, key, mac),
    }
}

/// What a Control shortcut does once no dialog is open: Ctrl-C quits, Ctrl-X
/// arms the leader key, Ctrl-K opens the command palette (not while the
/// agent works), Ctrl-G jumps to the top, Ctrl-D opens the last diff, and
/// Ctrl-Up and Ctrl-Down move the timeline selection.
pub open spec fn ctrl_key_post(o: App, f: App, code: KeyCode, r: KeyAction) -> bool {
    match code {
        KeyCode::Char('c') => r is Nothing && f == (App { quit: true, ..o }),
        KeyCode::Char('x') => r is Nothing && f == (App { leader_active: true, ..o }),
        KeyCode::Char('k') => r is Nothing && if o.busy {
            f == o
        } else {
            crate::tui::app::palette_opened(o, f)
        },
        KeyCode::Char('g') => r is Nothing && f == (App { scroll: 0, auto_scroll: false, ..o }),
        KeyCode::Char('d') => r is Nothing && match last_diff(blocks_view(o.content@), o.content@.len() as int) {
            Some(b) => f.diff_viewer matches Some(d) && d.body@ == b && d.scroll == 0 && f == (App {
                diff_viewer: f.diff_viewer,
                ..o
            }),
            None => f == o,
        },
        KeyCode::Up => r is Nothing && if o.content@.len() == 0 {
            f == o
        } else {
            f == (App { selected: crate::tui::app::step_selection_spec(o.content@, o.selected, false), ..o })
        },
        KeyCode::Down => r is Nothing && if o.content@.len() == 0 {
            f == o
        } else {
            f == (App { selected: crate::tui::app::step_selection_spec(o.content@, o.selected, true), ..o })
        },
        _ => true,
    }
}

/// Whether a Control key is one of the shortcuts.
pub open spec fn ctrl_shortcut(code: KeyCode) -> bool {
    code == KeyCode::Char('c') || code == KeyCode::Char('x') || code == KeyCode::Char('k') || code
        == KeyCode::Char('g') || code == KeyCode::Char('d') || code is Up || code is Down
}

/// What Enter and Esc do to a selected timeline block: Enter expands or
/// collapses it, Esc drops the selection.
pub open spec fn selection_key_post(o: App, f: App, i: usize, code: KeyCode, r: KeyAction) -> bool {
    match code {
        KeyCode::Enter => r is Nothing && f.expanded@ == (if o.expanded@.contains(i) {
            o.expanded@.remove(i)
        } else {
            o.expanded@.insert(i)
        }) && f == (App { expanded: f.expanded, ..o }),
        KeyCode::Esc => r is Nothing && f == (App { selected: None, ..o }),
        _ => true,
    }
}

/// What the mention picker does with a key: Up and Down move its selection,
/// Enter and Tab put the chosen path in the composer, Esc closes it.
pub open spec fn picker_key_post(o: App, f: App, code: KeyCode, r: KeyAction) -> bool {
    let p = o.mention_picker.unwrap();
    match code {
        KeyCode::Up => r is Nothing && f == (App {
            mention_picker: Some(crate::tui::app::MentionPicker { selected: up(p.selected), ..p }),
            ..o
        }),
        KeyCode::Down => r is Nothing && f == (App {
            mention_picker: Some(crate::tui::app::MentionPicker { selected: down(p.selected, p.results@.len()), ..p }),
            ..o
        }),
        KeyCode::Esc => r is Nothing && f == (App { mention_picker: None, ..o }),
        KeyCode::Enter | KeyCode::Tab => r is Nothing && crate::tui::app::mention_post(o, f),
        _ => true,
    }
}

/// What a key does once no dialog or leader key is open: Control
/// shortcuts first, then the timeline selection's Enter and Esc, the
/// mention picker's keys, the copy keys (given the mouse selection
/// `mouse`), and the composer.
pub open spec fn main_key_post(
    o: App,
    f: App,
    key: KeyEvent,
    mac: bool,
    mouse: Option<Seq<char>>,
    r: KeyAction,
) -> bool {
    &&& key.modifiers.control && ctrl_shortcut(key.code) ==> ctrl_key_post(o, f, key.code, r)
    &&& !key.modifiers.control && o.selected is Some && (key.code is Enter || key.code is Esc)
        ==> selection_key_post(o, f, o.selected.unwrap(), key.code, r)
    &&& !key.modifiers.control && o.mention_picker is Some && !(o.selected is Some && (key.code is Enter
        || key.code is Esc)) ==> picker_key_post(o, f, key.code, r)
    &&& o.busy && key.code == KeyCode::Esc && !key.modifiers.control && o.selected is None
        && o.mention_picker is None ==> r is Cancel
    &&& reaches_composer(o, key) ==> composer_key_post(o, f, key, mac, r)
    &&& copy_key_code(key) && !(key.modifiers.control && ctrl_shortcut(key.code)) && !(o.selected is Some
        && (key.code is Enter || key.code is Esc)) && !(o.mention_picker is Some && picker_takes(key.code)) && !(
    key.modifiers.sup && o.input@.selected() is Some) ==> copy_key_post(o, f, mouse, r)
}

/// The keys the mention picker takes.
pub open spec fn picker_takes(code: KeyCode) -> bool {
    code is Up || code is Down || code is Enter || code is Tab || code is Esc
}

/// What a copy key does, unless the composer has a selection: the mouse
/// selection, else the selected block's text (or the last reply's), goes to
/// the clipboard with a toast saying how much; with nothing to copy, a toast
/// says so.
pub open spec fn copy_key_post(o: App, f: App, mouse: Option<Seq<char>>, r: KeyAction) -> bool {
    let t = crate::tui::app::copy_target_spec(o.content@, o.selected);
    if mouse matches Some(m) && m.len() > 0 {
        &&& r matches KeyAction::Clipboard(x) && Some(x@) == mouse
        &&& f.toast matches Some(toast) && toast.0@ == "Copied selection ("@ + crate::text::decimal(mouse.unwrap().len())
            + " chars) to clipboard."@
        &&& f == (App { toast: f.toast, ..o })
    } else if t.len() > 0 {
        &&& r matches KeyAction::Clipboard(x) && x@ == t
        &&& f.toast matches Some(toast) && toast.0@ == "Copied "@ + crate::text::decimal(t.len()) + " chars to clipboard."@
        &&& f == (App { toast: f.toast, ..o })
    } else {
        &&& r is Nothing
        &&& f.toast matches Some(toast) && toast.0@ == "Nothing to copy yet."@
        &&& f == (App { toast: f.toast, ..o })
    }
}

/// Whether a key copies: Super-C or Ctrl-O.
pub open spec fn copy_key_code(key: KeyEvent) -> bool {
    (key.modifiers.sup && key.code == KeyCode::Char('c')) || (key.modifiers.control && key.code == KeyCode::Char('o'))
}

fn copy_key(app: &mut App, mouse_text: Option<String>) -> (r: KeyAction)
    ensures
        copy_key_post(
            *old(app),
            *final(app),
            match mouse_text {
                Some(t) => Some(t@),
                None => None,
            },
            r,
        ),
{
    match mouse_text {
        Some(text) => {
            let n = chars_of(text.as_str()).len();
            if n > 0 {
                let mut t = chars_of("Copied selection (");
                crate::text::push_decimal(&mut t, n);
                push_str_chars(&mut t, " chars) to clipboard.");
                app.show_toast(string_of(&t).as_str());
                return KeyAction::Clipboard(text);
            }
        },
        None => {},
    }
    let text = app.copy_target_text();
    let n = chars_of(text.as_str()).len();
    if n > 0 {
        let mut t = chars_of("Copied ");
        crate::text::push_decimal(&mut t, n);
        push_str_chars(&mut t, " chars to clipboard.");
        app.show_toast(string_of(&t).as_str());
        return KeyAction::Clipboard(text);
    }
    app.show_toast("Nothing to copy yet.");
    KeyAction::Nothing
}

/// Keys of the composer and the timeline, once no dialog is open.
#[verifier::rlimit(40)]
fn main_key(app: &mut App, key: KeyEvent, mac: bool, mouse_text: Option<String>) -> (r: KeyAction)
    requires
        key_ready(*old(app)),
    ensures
        final(app).wf(),
        main_key_post(
            *old(app),
            *final(app),
            key,
            mac,
            match mouse_text {
                Some(t) => Some(t@),
                None => None,
            },
            r,
        ),
{
    let code = key.code;
    let m = key.modifiers;
    if m.control {
        match code {
            KeyCode::Char('c') => {
                app.quit = true;
                return KeyAction::Nothing;
            },
            KeyCode::Char('k') => {
                if !app.busy {
                    app.open_command_palette();
                }
                return KeyAction::Nothing;
            },
            KeyCode::Char('x') => {
                app.leader_active = true;
                return KeyAction::Nothing;
            },
            KeyCode::Char('g') => {
                app.scroll = 0;
                app.auto_scroll = false;
                return KeyAction::Nothing;
            },
            KeyCode::Char('d') => {
                if let Some(b) = last_diff_body(&app.content) {
                    app.diff_viewer = Some(crate::tui::app::DiffViewer { body: b, scroll: 0 });
                }
                return KeyAction::Nothing;
            },
            KeyCode::Up => {
                app.select_prev();
                return KeyAction::Nothing;
            },
            KeyCode::Down => {
                app.select_next();
                return KeyAction::Nothing;
            },
            _ => {},
        }
    }
    if let Some(i) = app.selected {
        match code {
            KeyCode::Enter => {
                app.toggle_expanded(i);
                return KeyAction::Nothing;
            },
            KeyCode::Esc => {
                app.selected = None;
                return KeyAction::Nothing;
            },
            _ => {},
        }
    }
    if app.mention_picker.is_some() {
        match code {
            KeyCode::Up => {
                let mut p = app.mention_picker.take().unwrap();
                if p.selected > 0 {
                    p.selected = p.selected - 1;
                }
                app.mention_picker = Some(p);
                return KeyAction::Nothing;
            },
            KeyCode::Down => {
                let mut p = app.mention_picker.take().unwrap();
                if p.selected < p.results.len() && p.selected + 1 < p.results.len() {
                    p.selected = p.selected + 1;
                }
                app.mention_picker = Some(p);
                return KeyAction::Nothing;
            },
            KeyCode::Enter | KeyCode::Tab => {
                app.select_mention();
                return KeyAction::Nothing;
            },
            KeyCode::Esc => {
                app.mention_picker = None;
                return KeyAction::Nothing;
            },
            _ => {},
        }
    }
    let is_copy = (m.sup && code == KeyCode::Char('c')) || (m.control && code == KeyCode::Char('o'));
    if is_copy {
        if m.sup && app.input.selected_text().is_some() {
            // The composer's selection: the editor's copy below handles it.
        } else {
            return copy_key(app, mouse_text);
        }
    }
    composer_key(app, key, mac)
}

/// Handle a terminal key. A dialog or picker that is open takes the key
/// first (the diff viewer, then the session, mode, agent and model
/// pickers, the command palette, a pending question, a pending permission
/// request, the leader key); then control shortcuts, the timeline
/// selection, the mention picker, copying, and finally the composer. The
/// state changes here; what needs the outside world (the agent, the
/// clipboard, saved sessions) is returned.
pub fn handle_key(app: &mut App, key: KeyEvent, mac: bool, mouse_text: Option<String>) -> (r: KeyAction)
    requires
        key_ready(*old(app)),
    ensures
        final(app).wf(),
        key.kind != KeyEventKind::Press ==> r is Nothing && *final(app) == *old(app),
        key.kind == KeyEventKind::Press ==> (if old(app).diff_viewer is Some {
            diff_key_post(*old(app), *final(app), key.code, r)
        } else if old(app).session_picker is Some {
            session_key_post(*old(app), *final(app), key.code, r)
        } else if old(app).mode_picker is Some && mode_takes(key.code) {
            mode_key_post(*old(app), *final(app), key.code, Some(r))
        } else if old(app).agent_picker is Some {
            agent_key_post(*old(app), *final(app), key.code, r)
        } else if old(app).model_picker is Some {
            model_key_post(*old(app), *final(app), key.code, r)
        } else if old(app).command_palette is Some {
            palette_key_post(*old(app), *final(app), key.code, r)
        } else if old(app).pending_question is Some {
            question_key_post(*old(app), *final(app), key.code, r)
        } else if old(app).pending_permission is Some {
            permission_key_post(*old(app), *final(app), key.code, r)
        } else if old(app).leader_active {
            leader_key_post(*old(app), *final(app), key.code, r)
        } else {
            main_key_post(
                *old(app),
                *final(app),
                key,
                mac,
                match mouse_text {
                    Some(t) => Some(t@),
                    None => None,
                },
                r,
            )
        }),
{
    if key.kind != KeyEventKind::Press {
        return KeyAction::Nothing;
    }
    let code = key.code;
    if app.diff_viewer.is_some() {
        return diff_viewer_key(app, code);
    }
    if app.session_picker.is_some() {
        return session_picker_key(app, code);
    }
    if app.mode_picker.is_some() {
        if let Some(r) = mode_picker_key(app, code) {
            return r;
        }
    }
    if app.agent_picker.is_some() {
        return agent_picker_key(app, code);
    }
    if app.model_picker.is_some() {
        return model_picker_key(app, code);
    }
    if app.command_palette.is_some() {
        return palette_key(app, code);
    }
    if app.pending_question.is_some() {
        return question_key(app, code);
    }
    if app.pending_permission.is_some() {
        return permission_key(app, code);
    }
    if app.leader_active {
        return leader_key(app, code);
    }
    main_key(app, key, mac, mouse_text)
}

} // verus!
