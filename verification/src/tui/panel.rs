//! Styled lines for the terminal front end: the goal panel (its lines,
//! tones and size) and the lines of prompt, tool, activity, diff and error
//! blocks in the timeline.
use vstd::prelude::*;

use crate::goal::{int_text, push_i32, GoalEvaluation, GoalStatus, VerificationResult};
use crate::text::{chars_of, decimal, push_str_chars, push_u64, str_lines, str_lines_of, string_of, view2};
use crate::tui::app::{tool_label_spec, ActivityBlock, ActivityItem, ActivityPhase, ActivityStatus, ToolBlock, ToolKind, ToolState};
use crate::tui::render::{
    activity_item_label, activity_label_spec, diff_fits, diff_state, duration_text, fmt_duration, parse_unified_diff,
    rows_view, tool_summary, tool_summary_spec, truncate, truncate_spec, truncate_width, truncate_width_spec,
    wrap_text, wrap_text_spec, DiffRowView,
};
use crate::unicode::{display_width, width_of};

verus! {

/// The theme role of a piece of text; the terminal front end picks the color.
#[derive(Debug, Clone, Copy, PartialEq, Eq, Structural)]
pub enum Tone {
    /// The terminal's own color.
    Plain,
    Text,
    /// Work in progress.
    Running,
    Accent,
    Heading,
    Success,
    Error,
    Dim,
}

/// A run of text in one tone, bold or not.
#[derive(Debug, Clone)]
pub struct Run {
    pub text: String,
    pub tone: Tone,
    pub bold: bool,
}

/// One line of runs; a blank line has none.
#[derive(Debug, Clone)]
pub struct StyledLine {
    pub runs: Vec<Run>,
}

/// A run as text, tone and weight.
pub type RunV = (Seq<char>, Tone, bool);

pub open spec fn run_view(s: Run) -> RunV {
    (s.text@, s.tone, s.bold)
}

pub open spec fn line_view(l: StyledLine) -> Seq<RunV> {
    Seq::new(l.runs@.len(), |i: int| run_view(l.runs@[i]))
}

pub open spec fn lines_view(ls: Seq<StyledLine>) -> Seq<Seq<RunV>> {
    Seq::new(ls.len(), |i: int| line_view(ls[i]))
}

/// A plain run.
pub open spec fn plain(t: Seq<char>, tone: Tone) -> RunV {
    (t, tone, false)
}

/// A bold run.
pub open spec fn strong(t: Seq<char>, tone: Tone) -> RunV {
    (t, tone, true)
}

/// What the goal panel shows of a goal run.
#[derive(Debug, Clone)]
pub struct GoalPanel {
    pub description: String,
    pub turn: usize,
    pub max_turns: usize,
    pub finished: bool,
    pub status: GoalStatus,
    pub verification: Vec<VerificationResult>,
    pub evaluation: Option<GoalEvaluation>,
    pub message: String,
    pub turns: usize,
    pub seconds: u64,
}

/// The panel as drawn: title, border tone, size and lines.
pub struct GoalPanelView {
    pub title: String,
    pub border: Tone,
    pub width: usize,
    pub height: usize,
    pub lines: Vec<StyledLine>,
}

/// The panel's width on a screen `area_width` wide: four columns narrower,
/// but at least 20.
pub open spec fn panel_width(area_width: usize) -> int {
    if area_width >= 24 {
        area_width - 4
    } else {
        20
    }
}

/// Its greatest height on a screen `area_height` high: two rows less, kept
/// within 10 to 24.
pub open spec fn panel_max_height(area_height: usize) -> int {
    let h: int = if area_height >= 2 { area_height - 2 } else { 0 };
    if h < 10 {
        10
    } else if h > 24 {
        24
    } else {
        h
    }
}

/// Lines of text, each indented by two spaces and cut to `w` characters.
pub open spec fn indented(ls: Seq<Seq<char>>, w: nat, tone: Tone) -> Seq<Seq<RunV>> {
    Seq::new(ls.len(), |i: int| seq![plain("  "@ + truncate_spec(ls[i], w), tone)])
}

/// One verification command: a mark, the command and its exit code.
pub open spec fn verification_line(v: VerificationResult) -> Seq<RunV> {
    let tone = if v.success { Tone::Success } else { Tone::Error };
    let mark = if v.success { "✓"@ } else { "✗"@ };
    seq![
        plain("  "@ + mark + " "@, tone),
        plain(truncate_spec(v.command@, 80), Tone::Text),
        plain(" (exit "@ + int_text(v.exit_code as int) + ")"@, Tone::Dim),
    ]
}

/// The verification section: none without commands.
pub open spec fn verification_lines(vs: Seq<VerificationResult>) -> Seq<Seq<RunV>> {
    if vs.len() == 0 {
        seq![]
    } else {
        seq![seq![], seq![strong("Verification"@, Tone::Heading)]] + Seq::new(
            vs.len(),
            |i: int| verification_line(vs[i]),
        )
    }
}

/// One item of remaining work.
pub open spec fn remaining_line(r: Seq<char>, w: nat) -> Seq<RunV> {
    seq![plain("  • "@, Tone::Accent), plain(truncate_spec(r, w), Tone::Text)]
}

/// The evaluator's section: its verdict, its reason line by line, and the
/// first six items of remaining work.
pub open spec fn evaluation_lines(e: GoalEvaluation, w: nat) -> Seq<Seq<RunV>> {
    let tone = if e.completed { Tone::Success } else { Tone::Error };
    let mark = if e.completed { "✓"@ } else { "✗"@ };
    let verdict = if e.completed { "complete"@ } else { "incomplete"@ };
    let n = if e.remaining_work@.len() < 6 { e.remaining_work@.len() as int } else { 6 };
    seq![
        seq![],
        seq![strong("Goal evaluator"@, Tone::Heading)],
        seq![plain("  "@ + mark + " "@, tone), strong(verdict, tone)],
    ] + (if e.reason@.len() == 0 {
        seq![]
    } else {
        indented(str_lines(e.reason@), w, Tone::Dim)
    }) + Seq::new(n as nat, |i: int| remaining_line(e.remaining_work@[i]@, w))
}

/// The closing section of a finished run.
pub open spec fn finished_lines(g: GoalPanel, w: nat) -> Seq<Seq<RunV>> {
    let (mark, tone) = match g.status {
        GoalStatus::Completed => ("✓ Goal completed"@, Tone::Success),
        GoalStatus::Cancelled => ("✕ Goal cancelled"@, Tone::Error),
        _ => ("⚠ Goal stopped"@, Tone::Error),
    };
    seq![seq![], seq![strong(mark, tone)]] + (if g.message@.len() == 0 {
        seq![]
    } else {
        indented(str_lines(g.message@), w, Tone::Text)
    }) + seq![
        seq![plain("  "@ + decimal(g.turns as nat) + " turns · "@ + duration_text(g.seconds as nat), Tone::Dim)],
        seq![plain("  Esc to dismiss"@, Tone::Dim)],
    ]
}

/// The turn counter, marked as paused while a run waits.
pub open spec fn turn_text(g: GoalPanel, busy: bool) -> Seq<char> {
    "Turn "@ + decimal(g.turn as nat) + " / "@ + decimal(g.max_turns as nat) + if !busy && !g.finished {
        "  (paused)"@
    } else {
        seq![]
    }
}

/// The panel's lines at width `pw`: the description and turn, then the
/// verification, the evaluator's judgment and, once finished, the outcome.
pub open spec fn goal_lines(g: GoalPanel, busy: bool, pw: int) -> Seq<Seq<RunV>> {
    seq![
        seq![strong(truncate_spec(g.description@, (pw - 4) as nat), Tone::Text)],
        seq![plain(turn_text(g, busy), Tone::Accent)],
    ] + verification_lines(g.verification@) + (match g.evaluation {
        Some(e) => evaluation_lines(e, (pw - 6) as nat),
        None => seq![],
    }) + (if g.finished {
        finished_lines(g, (pw - 6) as nat)
    } else {
        seq![]
    })
}

/// The title: plain once finished, else noting that the run is going on.
pub open spec fn goal_title(g: GoalPanel) -> Seq<char> {
    if g.finished {
        " Goal "@
    } else {
        " Goal · autonomously running "@
    }
}

/// The border: success or failure once finished, the accent while running.
pub open spec fn goal_border(g: GoalPanel) -> Tone {
    if g.finished {
        if g.status == GoalStatus::Completed {
            Tone::Success
        } else {
            Tone::Error
        }
    } else {
        Tone::Accent
    }
}

fn run(text: String, tone: Tone, bold: bool) -> (r: Run)
    ensures
        run_view(r) == (text@, tone, bold),
{
    Run { text, tone, bold }
}

fn line1(a: Run) -> (r: StyledLine)
    ensures
        line_view(r) == seq![run_view(a)],
{
    let runs = vec![a];
    let r = StyledLine { runs };
    assert(line_view(r) =~= seq![run_view(a)]);
    r
}

fn line2(a: Run, b: Run) -> (r: StyledLine)
    ensures
        line_view(r) == seq![run_view(a), run_view(b)],
{
    let runs = vec![a, b];
    let r = StyledLine { runs };
    assert(line_view(r) =~= seq![run_view(a), run_view(b)]);
    r
}

fn blank_line() -> (r: StyledLine)
    ensures
        line_view(r) == Seq::<RunV>::empty(),
{
    let r = StyledLine { runs: Vec::new() };
    assert(line_view(r) =~= Seq::<RunV>::empty());
    r
}

fn text_of(parts: &Vec<char>) -> (r: String)
    ensures
        r@ == parts@,
{
    string_of(parts)
}

/// Append `line` to `out`.
fn push_line(out: &mut Vec<StyledLine>, line: StyledLine)
    ensures
        lines_view(final(out)@) == lines_view(old(out)@).push(line_view(line)),
{
    out.push(line);
    assert(lines_view(out@) =~= lines_view(old(out)@).push(line_view(line)));
}

/// Append the lines of `more` to `out`.
fn push_lines(out: &mut Vec<StyledLine>, more: Vec<StyledLine>)
    ensures
        lines_view(final(out)@) == lines_view(old(out)@) + lines_view(more@),
{
    let mut more = more;
    let ghost m = more@;
    out.append(&mut more);
    assert(lines_view(out@) =~= lines_view(old(out)@) + lines_view(m));
}

/// The lines of `text`, indented and cut to `w`.
fn indented_lines(text: &str, w: usize, tone: Tone) -> (r: Vec<StyledLine>)
    ensures
        lines_view(r@) == indented(str_lines(text@), w as nat, tone),
{
    let ls = str_lines_of(&chars_of(text));
    let ghost lv = view2(ls@);
    let mut out: Vec<StyledLine> = Vec::new();
    for i in 0..ls.len()
        invariant
            lv == view2(ls@),
            lv == str_lines(text@),
            lines_view(out@) == indented(lv, w as nat, tone).take(i as int),
    {
        let mut t = chars_of("  ");
        let cut = truncate(text_of(&ls[i]).as_str(), w);
        proof {
            reveal_strlit("  ");
            assert(lv[i as int] == ls@[i as int]@);
        }
        push_str_chars(&mut t, cut.as_str());
        let ghost prev = lines_view(out@);
        push_line(&mut out, line1(run(text_of(&t), tone, false)));
        assert(indented(lv, w as nat, tone).take(i + 1) =~= prev.push(indented(lv, w as nat, tone)[i as int]));
    }
    assert(indented(lv, w as nat, tone).take(ls@.len() as int) =~= indented(lv, w as nat, tone));
    out
}

fn verification_section(vs: &Vec<VerificationResult>) -> (r: Vec<StyledLine>)
    ensures
        lines_view(r@) == verification_lines(vs@),
{
    let mut out: Vec<StyledLine> = Vec::new();
    if vs.len() == 0 {
        assert(lines_view(out@) =~= verification_lines(vs@));
        return out;
    }
    push_line(&mut out, blank_line());
    push_line(&mut out, line1(run(String::from_str("Verification"), Tone::Heading, true)));
    let ghost head = lines_view(out@);
    let ghost body = Seq::new(vs@.len(), |i: int| verification_line(vs@[i]));
    assert(head + body.take(0) =~= head);
    for i in 0..vs.len()
        invariant
            head == seq![Seq::<RunV>::empty(), seq![strong("Verification"@, Tone::Heading)]],
            body == Seq::new(vs@.len(), |i: int| verification_line(vs@[i])),
            lines_view(out@) == head + body.take(i as int),
    {
        let v = &vs[i];
        let tone = if v.success {
            Tone::Success
        } else {
            Tone::Error
        };
        let mut m = chars_of("  ");
        push_str_chars(&mut m, if v.success {
            "✓"
        } else {
            "✗"
        });
        push_str_chars(&mut m, " ");
        let mut ex = chars_of(" (exit ");
        push_i32(&mut ex, v.exit_code);
        push_str_chars(&mut ex, ")");
        let runs = vec![
            run(text_of(&m), tone, false),
            run(truncate(v.command.as_str(), 80), Tone::Text, false),
            run(text_of(&ex), Tone::Dim, false),
        ];
        let l = StyledLine { runs };
        assert(line_view(l) =~= verification_line(vs@[i as int]));
        let ghost prev = lines_view(out@);
        push_line(&mut out, l);
        assert(head + body.take(i + 1) =~= prev.push(body[i as int]));
    }
    assert(body.take(vs@.len() as int) =~= body);
    out
}

fn evaluation_section(e: &GoalEvaluation, w: usize) -> (r: Vec<StyledLine>)
    ensures
        lines_view(r@) == evaluation_lines(*e, w as nat),
{
    let tone = if e.completed {
        Tone::Success
    } else {
        Tone::Error
    };
    let mut out: Vec<StyledLine> = Vec::new();
    push_line(&mut out, blank_line());
    push_line(&mut out, line1(run(String::from_str("Goal evaluator"), Tone::Heading, true)));
    let mut m = chars_of("  ");
    push_str_chars(&mut m, if e.completed {
        "✓"
    } else {
        "✗"
    });
    push_str_chars(&mut m, " ");
    let verdict = if e.completed {
        String::from_str("complete")
    } else {
        String::from_str("incomplete")
    };
    push_line(&mut out, line2(run(text_of(&m), tone, false), run(verdict, tone, true)));
    let ghost top = lines_view(out@);
    let ghost reason = if e.reason@.len() == 0 {
        Seq::<Seq<RunV>>::empty()
    } else {
        indented(str_lines(e.reason@), w as nat, Tone::Dim)
    };
    if chars_of(e.reason.as_str()).len() > 0 {
        push_lines(&mut out, indented_lines(e.reason.as_str(), w, Tone::Dim));
    }
    assert(lines_view(out@) =~= top + reason);
    let n: usize = if e.remaining_work.len() < 6 {
        e.remaining_work.len()
    } else {
        6
    };
    let ghost rest = Seq::new(n as nat, |i: int| remaining_line(e.remaining_work@[i]@, w as nat));
    assert(top + reason + rest.take(0) =~= top + reason);
    for i in 0..n
        invariant
            n <= e.remaining_work@.len(),
            rest == Seq::new(n as nat, |i: int| remaining_line(e.remaining_work@[i]@, w as nat)),
            lines_view(out@) == top + reason + rest.take(i as int),
    {
        let l = line2(
            run(String::from_str("  • "), Tone::Accent, false),
            run(truncate(e.remaining_work[i].as_str(), w), Tone::Text, false),
        );
        let ghost prev = lines_view(out@);
        push_line(&mut out, l);
        assert(top + reason + rest.take(i + 1) =~= prev.push(rest[i as int]));
    }
    assert(rest.take(n as int) =~= rest);
    out
}

fn finished_section(g: &GoalPanel, w: usize) -> (r: Vec<StyledLine>)
    ensures
        lines_view(r@) == finished_lines(*g, w as nat),
{
    let (mark, tone) = match g.status {
        GoalStatus::Completed => ("✓ Goal completed", Tone::Success),
        GoalStatus::Cancelled => ("✕ Goal cancelled", Tone::Error),
        _ => ("⚠ Goal stopped", Tone::Error),
    };
    let mut out: Vec<StyledLine> = Vec::new();
    push_line(&mut out, blank_line());
    push_line(&mut out, line1(run(String::from_str(mark), tone, true)));
    let ghost top = lines_view(out@);
    let ghost msg = if g.message@.len() == 0 {
        Seq::<Seq<RunV>>::empty()
    } else {
        indented(str_lines(g.message@), w as nat, Tone::Text)
    };
    if chars_of(g.message.as_str()).len() > 0 {
        push_lines(&mut out, indented_lines(g.message.as_str(), w, Tone::Text));
    }
    assert(lines_view(out@) =~= top + msg);
    let mut t = chars_of("  ");
    push_u64(&mut t, g.turns as u64);
    push_str_chars(&mut t, " turns · ");
    push_str_chars(&mut t, fmt_duration(g.seconds).as_str());
    push_line(&mut out, line1(run(text_of(&t), Tone::Dim, false)));
    push_line(&mut out, line1(run(String::from_str("  Esc to dismiss"), Tone::Dim, false)));
    out
}

/// The goal panel on a screen of `area_width` by `area_height`: its title,
/// border, width, height (its lines and border, within its greatest height)
/// and lines.
pub fn goal_panel(g: &GoalPanel, busy: bool, area_width: usize, area_height: usize) -> (r: GoalPanelView)
    ensures
        r.title@ == goal_title(*g),
        r.border == goal_border(*g),
        r.width == panel_width(area_width),
        lines_view(r.lines@) == goal_lines(*g, busy, panel_width(area_width)),
        r.height == if r.lines@.len() + 2 < panel_max_height(area_height) {
            (r.lines@.len() + 2) as int
        } else {
            panel_max_height(area_height)
        },
{
    let pw: usize = if area_width >= 24 {
        area_width - 4
    } else {
        20
    };
    let h: usize = if area_height >= 2 {
        area_height - 2
    } else {
        0
    };
    let max_h: usize = if h < 10 {
        10
    } else if h > 24 {
        24
    } else {
        h
    };
    let mut out: Vec<StyledLine> = Vec::new();
    push_line(&mut out, line1(run(truncate(g.description.as_str(), pw - 4), Tone::Text, true)));
    let mut t = chars_of("Turn ");
    push_u64(&mut t, g.turn as u64);
    push_str_chars(&mut t, " / ");
    push_u64(&mut t, g.max_turns as u64);
    if !busy && !g.finished {
        push_str_chars(&mut t, "  (paused)");
    }
    proof {
        reveal_strlit("  (paused)");
        assert(!(!busy && !g.finished) ==> t@ =~= turn_text(*g, busy));
    }
    push_line(&mut out, line1(run(text_of(&t), Tone::Accent, false)));
    push_lines(&mut out, verification_section(&g.verification));
    let ghost a = lines_view(out@);
    match &g.evaluation {
        Some(e) => push_lines(&mut out, evaluation_section(e, pw - 6)),
        None => {},
    }
    let ghost b = lines_view(out@);
    assert(b =~= a + match g.evaluation {
        Some(e) => evaluation_lines(e, (pw - 6) as nat),
        None => seq![],
    });
    if g.finished {
        push_lines(&mut out, finished_section(g, pw - 6));
    }
    assert(lines_view(out@) =~= goal_lines(*g, busy, pw as int));
    let n = out.len();
    let height = if n < max_h - 2 {
        n + 2
    } else {
        max_h
    };
    let title = if g.finished {
        String::from_str(" Goal ")
    } else {
        String::from_str(" Goal · autonomously running ")
    };
    GoalPanelView { title, border: if g.finished {
        if g.status == GoalStatus::Completed {
            Tone::Success
        } else {
            Tone::Error
        }
    } else {
        Tone::Accent
    }, width: pw, height, lines: out }
}

/// The tone of a line of diff output: additions, removals, hunk headers,
/// and the rest.
pub open spec fn diff_tone(line: Seq<char>) -> Tone {
    if crate::text::starts_with(line, "+"@) && !crate::text::starts_with(line, "+++"@) {
        Tone::Success
    } else if crate::text::starts_with(line, "-"@) && !crate::text::starts_with(line, "---"@) {
        Tone::Error
    } else if crate::text::starts_with(line, "@@"@) {
        Tone::Accent
    } else {
        Tone::Dim
    }
}

/// The mark and tone of a tool's state.
pub open spec fn state_mark(s: ToolState) -> (Seq<char>, Tone) {
    match s {
        ToolState::Running => ("◌"@, Tone::Running),
        ToolState::Success => ("✓"@, Tone::Success),
        ToolState::Failed => ("✗"@, Tone::Error),
    }
}

/// `s` padded with spaces to `w` characters.
pub open spec fn padded(s: Seq<char>, w: nat) -> Seq<char> {
    if s.len() < w {
        s + Seq::new((w - s.len()) as nat, |i: int| ' ')
    } else {
        s
    }
}

/// A tool block's first line: the selection marker, the state's mark, the
/// kind and the target (a shell command after `$ `, a written file in the
/// running tone).
pub open spec fn tool_header(tb: ToolBlock, selected: bool) -> Seq<RunV> {
    let (icon, tone) = state_mark(tb.state);
    let target = truncate_spec(tb.target@, 100);
    let last = match tb.kind {
        ToolKind::Shell => strong("$ "@ + target, Tone::Text),
        ToolKind::Write | ToolKind::Edit => strong(target, Tone::Running),
        _ => plain(target, Tone::Text),
    };
    seq![
        plain(if selected { "▶ "@ } else { "  "@ }, Tone::Accent),
        strong(icon, tone),
        plain(" "@, Tone::Plain),
        plain(padded(tool_label_spec(tb.kind), 6), tone),
        last,
    ]
}

/// The lines of a tool's output, indented and cut to `w`, in the text tone
/// or as diff lines.
pub open spec fn output_lines(out: Seq<char>, w: nat, diff: bool) -> Seq<Seq<RunV>> {
    let ls = str_lines(out);
    Seq::new(
        ls.len(),
        |i: int| seq![plain("  "@ + truncate_spec(ls[i], w), if diff { diff_tone(ls[i]) } else { Tone::Text })],
    )
}

/// A collapsed tool block: the summary of its output, then a hint when
/// there is more to show.
pub open spec fn collapsed_lines(tb: ToolBlock, selected: bool) -> Seq<Seq<RunV>> {
    (match tool_summary_spec(tb.kind, tb.output@) {
        Some(sm) => seq![seq![plain("      "@ + sm, if selected { Tone::Accent } else { Tone::Dim })]],
        None => seq![],
    }) + if str_lines(tb.output@).len() > 1 || crate::text::byte_len(tb.output@) > 120 {
        seq![seq![plain("      [Show output — Enter]"@, Tone::Dim)]]
    } else {
        seq![]
    }
}

/// A tool block's lines in the timeline: the header, then its output in
/// full when expanded, else collapsed. Shell output is plain text; file
/// changes and other tools' output are shown as diff lines, and other tools
/// show nothing without output.
pub open spec fn tool_block_spec(tb: ToolBlock, selected: bool, expanded: bool) -> Seq<Seq<RunV>> {
    seq![tool_header(tb, selected)] + match tb.kind {
        ToolKind::Shell => if expanded {
            output_lines(tb.output@, 200, false)
        } else {
            collapsed_lines(tb, selected)
        },
        ToolKind::Write | ToolKind::Edit => if expanded {
            output_lines(tb.output@, 200, true)
        } else {
            collapsed_lines(tb, selected)
        },
        _ => if crate::text::trim_spec(tb.output@).len() == 0 {
            seq![]
        } else if !expanded {
            collapsed_lines(tb, selected)
        } else {
            output_lines(tb.output@, 180, true)
        },
    }
}

fn diff_tone_of(line: &Vec<char>) -> (r: Tone)
    ensures
        r == diff_tone(line@),
{
    if crate::text::starts_with_chars(line, &chars_of("+")) && !crate::text::starts_with_chars(line, &chars_of("+++")) {
        Tone::Success
    } else if crate::text::starts_with_chars(line, &chars_of("-")) && !crate::text::starts_with_chars(line, &chars_of("---")) {
        Tone::Error
    } else if crate::text::starts_with_chars(line, &chars_of("@@")) {
        Tone::Accent
    } else {
        Tone::Dim
    }
}

fn tool_header_line(tb: &ToolBlock, selected: bool) -> (r: StyledLine)
    ensures
        line_view(r) == tool_header(*tb, selected),
{
    let (icon, tone) = match tb.state {
        ToolState::Running => ("◌", Tone::Running),
        ToolState::Success => ("✓", Tone::Success),
        ToolState::Failed => ("✗", Tone::Error),
    };
    let target = truncate(tb.target.as_str(), 100);
    let last = match tb.kind {
        ToolKind::Shell => {
            let mut t = chars_of("$ ");
            push_str_chars(&mut t, target.as_str());
            run(text_of(&t), Tone::Text, true)
        },
        ToolKind::Write | ToolKind::Edit => run(target, Tone::Running, true),
        _ => run(target, Tone::Text, false),
    };
    let mut label = chars_of(tb.kind.label());
    let ghost l0 = label@;
    while label.len() < 6
        invariant
            l0.len() <= label@.len() <= 6 || (l0.len() >= 6 && label@ == l0),
            label@ == l0 + Seq::new((label@.len() - l0.len()) as nat, |i: int| ' '),
        decreases 6 - label.len(),
    {
        let ghost prev = label@;
        label.push(' ');
        assert(label@ =~= l0 + Seq::new((label@.len() - l0.len()) as nat, |i: int| ' '));
    }
    proof {
        if l0.len() >= 6 {
            assert(label@ =~= l0);
        }
        assert(label@ == padded(tool_label_spec(tb.kind), 6));
    }
    let runs = vec![
        run(String::from_str(if selected {
            "▶ "
        } else {
            "  "
        }), Tone::Accent, false),
        run(String::from_str(icon), tone, true),
        run(String::from_str(" "), Tone::Plain, false),
        run(text_of(&label), tone, false),
        last,
    ];
    let r = StyledLine { runs };
    assert(line_view(r) =~= tool_header(*tb, selected));
    r
}

fn output_section(out: &str, w: usize, diff: bool) -> (r: Vec<StyledLine>)
    ensures
        lines_view(r@) == output_lines(out@, w as nat, diff),
{
    let ls = str_lines_of(&chars_of(out));
    let ghost lv = view2(ls@);
    let mut res: Vec<StyledLine> = Vec::new();
    for i in 0..ls.len()
        invariant
            lv == view2(ls@),
            lv == str_lines(out@),
            lines_view(res@) == output_lines(out@, w as nat, diff).take(i as int),
    {
        proof {
            assert(lv[i as int] == ls@[i as int]@);
        }
        let mut t = chars_of("  ");
        push_str_chars(&mut t, truncate(text_of(&ls[i]).as_str(), w).as_str());
        let tone = if diff {
            diff_tone_of(&ls[i])
        } else {
            Tone::Text
        };
        let ghost prev = lines_view(res@);
        push_line(&mut res, line1(run(text_of(&t), tone, false)));
        assert(output_lines(out@, w as nat, diff).take(i + 1) =~= prev.push(output_lines(out@, w as nat, diff)[i as int]));
    }
    assert(output_lines(out@, w as nat, diff).take(ls@.len() as int) =~= output_lines(out@, w as nat, diff));
    res
}

fn collapsed_section(tb: &ToolBlock, selected: bool) -> (r: Vec<StyledLine>)
    ensures
        lines_view(r@) == collapsed_lines(*tb, selected),
{
    let mut res: Vec<StyledLine> = Vec::new();
    match tool_summary(tb) {
        Some(sm) => {
            let mut t = chars_of("      ");
            push_str_chars(&mut t, sm.as_str());
            let tone = if selected {
                Tone::Accent
            } else {
                Tone::Dim
            };
            push_line(&mut res, line1(run(text_of(&t), tone, false)));
        },
        None => {},
    }
    let ghost top = lines_view(res@);
    assert(top =~= match tool_summary_spec(tb.kind, tb.output@) {
        Some(sm) => seq![seq![plain("      "@ + sm, if selected { Tone::Accent } else { Tone::Dim })]],
        None => Seq::<Seq<RunV>>::empty(),
    });
    let n_lines = str_lines_of(&chars_of(tb.output.as_str())).len();
    let bytes = crate::text::str_byte_len(tb.output.as_str());
    if n_lines > 1 || bytes > 120 {
        push_line(&mut res, line1(run(String::from_str("      [Show output — Enter]"), Tone::Dim, false)));
    }
    assert(lines_view(res@) =~= collapsed_lines(*tb, selected));
    res
}

/// The lines of a tool block in the timeline.
pub fn tool_block_lines(tb: &ToolBlock, selected: bool, expanded: bool) -> (r: Vec<StyledLine>)
    ensures
        lines_view(r@) == tool_block_spec(*tb, selected, expanded),
{
    let mut res: Vec<StyledLine> = Vec::new();
    push_line(&mut res, tool_header_line(tb, selected));
    let body = match tb.kind {
        ToolKind::Shell => if expanded {
            output_section(tb.output.as_str(), 200, false)
        } else {
            collapsed_section(tb, selected)
        },
        ToolKind::Write | ToolKind::Edit => if expanded {
            output_section(tb.output.as_str(), 200, true)
        } else {
            collapsed_section(tb, selected)
        },
        _ => if crate::text::trim_chars(&chars_of(tb.output.as_str())).len() == 0 {
            Vec::new()
        } else if !expanded {
            collapsed_section(tb, selected)
        } else {
            output_section(tb.output.as_str(), 180, true)
        },
    };
    proof {
        if !(tb.kind is Shell || tb.kind is Write || tb.kind is Edit) && crate::text::trim_spec(tb.output@).len() == 0 {
            assert(lines_view(body@) =~= Seq::<Seq<RunV>>::empty());
        }
    }
    push_lines(&mut res, body);
    assert(lines_view(res@) =~= tool_block_spec(*tb, selected, expanded));
    res
}

/// An error block: the first line after a warning sign, then the rest, all
/// in the error tone.
pub open spec fn error_block_spec(text: Seq<char>) -> Seq<Seq<RunV>> {
    let ls = str_lines(text);
    let first = if ls.len() > 0 { ls[0] } else { seq![] };
    seq![seq![plain("⚠ "@ + first, Tone::Error)]] + Seq::new(
        if ls.len() > 0 { (ls.len() - 1) as nat } else { 0 },
        |i: int| seq![plain(ls[i + 1], Tone::Error)],
    )
}

/// The lines of an error block.
pub fn error_block_lines(text: &str) -> (r: Vec<StyledLine>)
    ensures
        lines_view(r@) == error_block_spec(text@),
{
    let ls = str_lines_of(&chars_of(text));
    let ghost lv = view2(ls@);
    let mut first = chars_of("⚠ ");
    if ls.len() > 0 {
        crate::text::extend_chars(&mut first, &ls[0]);
        assert(lv[0] == ls@[0]@);
    }
    let mut res: Vec<StyledLine> = Vec::new();
    push_line(&mut res, line1(run(text_of(&first), Tone::Error, false)));
    let ghost spec = error_block_spec(text@);
    assert(lines_view(res@) =~= spec.take(1));
    let mut i: usize = 1;
    while i < ls.len()
        invariant
            lv == view2(ls@),
            lv == str_lines(text@),
            spec == error_block_spec(text@),
            1 <= i <= ls@.len() || (ls@.len() == 0 && i == 1),
            lines_view(res@) == spec.take(i as int),
        decreases ls.len() - i,
    {
        assert(lv[i as int] == ls@[i as int]@);
        let ghost prev = lines_view(res@);
        push_line(&mut res, line1(run(text_of(&ls[i]), Tone::Error, false)));
        assert(spec.take(i + 1) =~= prev.push(spec[i as int]));
        i += 1;
    }
    assert(spec.len() == if ls@.len() > 0 { ls@.len() } else { 1 });
    assert(spec.take(spec.len() as int) =~= spec);
    res
}

/// The mark and tone of an activity item's status.
pub open spec fn status_mark(s: ActivityStatus) -> (Seq<char>, Tone) {
    match s {
        ActivityStatus::Running => ("◌"@, Tone::Running),
        ActivityStatus::Success => ("✓"@, Tone::Success),
        ActivityStatus::Failed => ("✗"@, Tone::Error),
    }
}

/// The heading of an activity group, once done or while going on.
pub open spec fn phase_heading(p: ActivityPhase, done: bool) -> Seq<char> {
    if done {
        "  ✓ "@ + match p {
            ActivityPhase::Investigating => "Investigated"@,
            ActivityPhase::Modifying => "Modified"@,
            ActivityPhase::Running => "Ran"@,
        }
    } else {
        "  ◌ "@ + match p {
            ActivityPhase::Investigating => "Investigating"@,
            ActivityPhase::Modifying => "Modifying files"@,
            ActivityPhase::Running => "Running"@,
        } + "..."@
    }
}

/// One item of an activity group, with its output below when expanded.
pub open spec fn activity_item_spec(item: ActivityItem, expanded: bool) -> Seq<Seq<RunV>> {
    let (icon, tone) = status_mark(item.status);
    let ls = str_lines(item.output@);
    seq![seq![
        plain("    "@, Tone::Plain),
        plain(icon, tone),
        plain(" "@ + activity_label_spec(item.kind, item.name@, item.target@), Tone::Text),
    ]] + if expanded && item.output@.len() > 0 {
        Seq::new(ls.len(), |i: int| seq![plain("      "@ + truncate_spec(ls[i], 160), Tone::Dim)])
    } else {
        seq![]
    }
}

/// The items of an activity group from the `n`-th on.
pub open spec fn activity_items_spec(items: Seq<ActivityItem>, expanded: bool, n: int) -> Seq<Seq<RunV>>
    decreases n,
{
    if n <= 0 {
        seq![]
    } else {
        activity_items_spec(items, expanded, n - 1) + activity_item_spec(items[n - 1], expanded)
    }
}

/// An activity group: its heading, its items, and a hint when collapsed
/// output is hidden.
pub open spec fn activity_block_spec(a: ActivityBlock, selected: bool, expanded: bool) -> Seq<Seq<RunV>> {
    let has_output = exists|i: int| 0 <= i < a.items@.len() && a.items@[i].output@.len() > 0;
    seq![seq![plain(
        (if selected { "▶"@ } else { " "@ }) + phase_heading(a.phase, a.done),
        if a.done { Tone::Dim } else { Tone::Running },
    )]] + activity_items_spec(a.items@, expanded, a.items@.len() as int) + if !expanded && has_output {
        seq![seq![plain("      [Show output — Enter]"@, Tone::Dim)]]
    } else {
        seq![]
    }
}

fn activity_item_section(item: &ActivityItem, expanded: bool) -> (r: Vec<StyledLine>)
    ensures
        lines_view(r@) == activity_item_spec(*item, expanded),
{
    let (icon, tone) = match item.status {
        ActivityStatus::Running => ("◌", Tone::Running),
        ActivityStatus::Success => ("✓", Tone::Success),
        ActivityStatus::Failed => ("✗", Tone::Error),
    };
    let mut label = chars_of(" ");
    push_str_chars(&mut label, activity_item_label(item).as_str());
    let runs = vec![
        run(String::from_str("    "), Tone::Plain, false),
        run(String::from_str(icon), tone, false),
        run(text_of(&label), Tone::Text, false),
    ];
    let head = StyledLine { runs };
    let ghost (icon_v, tone_v) = status_mark(item.status);
    assert(line_view(head) =~= seq![
        plain("    "@, Tone::Plain),
        plain(icon_v, tone_v),
        plain(" "@ + activity_label_spec(item.kind, item.name@, item.target@), Tone::Text),
    ]);
    let mut res: Vec<StyledLine> = Vec::new();
    push_line(&mut res, head);
    let ghost top = lines_view(res@);
    let ghost ls = str_lines(item.output@);
    let ghost rest = Seq::new(ls.len(), |i: int| seq![plain("      "@ + truncate_spec(ls[i], 160), Tone::Dim)]);
    if expanded && chars_of(item.output.as_str()).len() > 0 {
        let outs = str_lines_of(&chars_of(item.output.as_str()));
        assert(view2(outs@) == ls);
        for i in 0..outs.len()
            invariant
                view2(outs@) == ls,
                rest == Seq::new(ls.len(), |i: int| seq![plain("      "@ + truncate_spec(ls[i], 160), Tone::Dim)]),
                lines_view(res@) == top + rest.take(i as int),
        {
            assert(ls[i as int] == outs@[i as int]@);
            let mut t = chars_of("      ");
            push_str_chars(&mut t, truncate(text_of(&outs[i]).as_str(), 160).as_str());
            let ghost prev = lines_view(res@);
            push_line(&mut res, line1(run(text_of(&t), Tone::Dim, false)));
            assert(top + rest.take(i + 1) =~= prev.push(rest[i as int]));
        }
        assert(rest.take(ls.len() as int) =~= rest);
    }
    assert(lines_view(res@) =~= activity_item_spec(*item, expanded));
    res
}

/// The lines of an activity group in the timeline.
pub fn activity_block_lines(a: &ActivityBlock, selected: bool, expanded: bool) -> (r: Vec<StyledLine>)
    ensures
        lines_view(r@) == activity_block_spec(*a, selected, expanded),
{
    let mut head = chars_of(if selected {
        "▶"
    } else {
        " "
    });
    if a.done {
        push_str_chars(&mut head, "  ✓ ");
        push_str_chars(&mut head, a.phase.done_label());
    } else {
        push_str_chars(&mut head, "  ◌ ");
        push_str_chars(&mut head, a.phase.label());
        push_str_chars(&mut head, "...");
    }
    let tone = if a.done {
        Tone::Dim
    } else {
        Tone::Running
    };
    assert(head@ =~= (if selected { "▶"@ } else { " "@ }) + phase_heading(a.phase, a.done));
    let mut res: Vec<StyledLine> = Vec::new();
    push_line(&mut res, line1(run(text_of(&head), tone, false)));
    let ghost top = lines_view(res@);
    let mut has_output = false;
    for i in 0..a.items.len()
        invariant
            lines_view(res@) == top + activity_items_spec(a.items@, expanded, i as int),
            has_output == exists|k: int| 0 <= k < i && a.items@[k].output@.len() > 0,
    {
        if chars_of(a.items[i].output.as_str()).len() > 0 {
            has_output = true;
        }
        let ghost prev = lines_view(res@);
        push_lines(&mut res, activity_item_section(&a.items[i], expanded));
        assert(top + activity_items_spec(a.items@, expanded, i + 1) =~= prev + activity_item_spec(a.items@[i as int], expanded));
    }
    if !expanded && has_output {
        push_line(&mut res, line1(run(String::from_str("      [Show output — Enter]"), Tone::Dim, false)));
    }
    assert(lines_view(res@) =~= activity_block_spec(*a, selected, expanded));
    res
}

/// `n` spaces.
pub open spec fn spaces(n: nat) -> Seq<char> {
    Seq::new(n, |i: int| ' ')
}

/// `n` copies of `c`.
pub open spec fn repeated(c: char, n: nat) -> Seq<char> {
    Seq::new(n, |i: int| c)
}

/// `a - b`, or 0 below it.
pub open spec fn sat_sub(a: int, b: int) -> nat {
    if a >= b { (a - b) as nat } else { 0 }
}

/// The display width of a line's runs, added up saturating at the largest
/// `usize`.
pub open spec fn line_width(l: Seq<RunV>) -> nat
    decreases l.len(),
{
    if l.len() == 0 {
        0
    } else {
        let w = line_width(l.drop_last()) + display_width(l.last().0);
        if w > usize::MAX { usize::MAX as nat } else { w }
    }
}

/// A bordered block at least 10 columns wide: a top border holding the
/// title (in the accent tone when selected), each body line between side
/// borders and padded to the inner width, an optional hint line, and a
/// bottom border.
pub open spec fn bordered_spec(
    title: Seq<char>,
    width: nat,
    body: Seq<Seq<RunV>>,
    selected: bool,
    hint: Option<Seq<char>>,
) -> Seq<Seq<RunV>> {
    let w: int = if width < 10 { 10 } else { width as int };
    let dashes = w - 2;
    let inner = w - 4;
    let t = if title.len() == 0 { seq![] } else { " "@ + title + " "@ };
    let dc = if sat_sub(dashes, t.len() as int) < 2 { 2 } else { sat_sub(dashes, t.len() as int) };
    seq![seq![plain("┌"@ + t + repeated('─', dc) + "┐"@, if selected { Tone::Accent } else { Tone::Dim })]]
        + Seq::new(
        body.len(),
        |i: int|
            seq![plain("│ "@, Tone::Dim)] + body[i] + seq![
                plain(spaces(sat_sub(inner, line_width(body[i]) as int)) + " │"@, Tone::Dim),
            ],
    ) + (match hint {
        Some(h) => seq![
            seq![
                plain("│ "@, Tone::Dim),
                plain(h, Tone::Dim),
                plain(spaces(sat_sub(inner, display_width(h) as int)) + " │"@, Tone::Dim),
            ],
        ],
        None => seq![],
    }) + seq![seq![plain("└"@ + repeated('─', dashes as nat) + "┘"@, Tone::Dim)]]
}

fn push_repeated(out: &mut Vec<char>, c: char, n: usize)
    ensures
        final(out)@ == old(out)@ + repeated(c, n as nat),
{
    let mut k: usize = 0;
    while k < n
        invariant
            k <= n,
            out@ == old(out)@ + repeated(c, k as nat),
        decreases n - k,
    {
        out.push(c);
        k += 1;
        assert(out@ =~= old(out)@ + repeated(c, k as nat));
    }
}

fn width_of_line(l: &StyledLine) -> (r: usize)
    ensures
        r == line_width(line_view(*l)),
{
    let ghost lv = line_view(*l);
    let mut total: usize = 0;
    for i in 0..l.runs.len()
        invariant
            lv == line_view(*l),
            total == line_width(lv.take(i as int)),
    {
        let w = width_of(&chars_of(l.runs[i].text.as_str()));
        total = total.saturating_add(w);
        assert(lv.take(i + 1).drop_last() =~= lv.take(i as int));
    }
    assert(lv.take(l.runs@.len() as int) =~= lv);
    total
}

fn bordered(
    out: &mut Vec<StyledLine>,
    title: &str,
    width: usize,
    body: Vec<StyledLine>,
    selected: bool,
    hint: Option<&str>,
)
    ensures
        lines_view(final(out)@) == lines_view(old(out)@) + bordered_spec(
            title@,
            width as nat,
            lines_view(body@),
            selected,
            match hint {
                Some(h) => Some(h@),
                None => None,
            },
        ),
{
    let ghost hv = match hint {
        Some(h) => Some(h@),
        None => None::<Seq<char>>,
    };
    let ghost spec = bordered_spec(title@, width as nat, lines_view(body@), selected, hv);
    let ghost start = lines_view(out@);
    let w: usize = if width < 10 {
        10
    } else {
        width
    };
    let dashes = w - 2;
    let inner = w - 4;
    let tv = chars_of(title);
    let mut t: Vec<char> = Vec::new();
    if tv.len() > 0 {
        t.push(' ');
        crate::text::extend_chars(&mut t, &tv);
        t.push(' ');
    }
    let dc0: usize = if dashes >= t.len() {
        dashes - t.len()
    } else {
        0
    };
    let dc = if dc0 < 2 {
        2
    } else {
        dc0
    };
    let mut top = chars_of("┌");
    crate::text::extend_chars(&mut top, &t);
    push_repeated(&mut top, '─', dc);
    push_str_chars(&mut top, "┐");
    proof {
        reveal_strlit("┌");
        reveal_strlit("┐");
        if tv.len() > 0 {
            reveal_strlit(" ");
            assert(t@ =~= " "@ + title@ + " "@);
        } else {
            assert(t@ =~= Seq::<char>::empty());
        }
    }
    push_line(out, line1(run(text_of(&top), if selected {
        Tone::Accent
    } else {
        Tone::Dim
    }, false)));
    let ghost bv = lines_view(body@);
    assert(lines_view(out@) =~= start + spec.take(1));
    let n = body.len();
    let mut rest = body;
    let mut i: usize = 0;
    assert(lines_view(rest@) =~= bv.skip(0));
    while rest.len() > 0
        invariant
            i <= bv.len(),
            bv.len() == n,
            lines_view(rest@) == bv.skip(i as int),
            inner == w - 4,
            w >= 10,
            w == if width < 10 { 10 } else { width },
            dashes == w - 2,
            spec == bordered_spec(title@, width as nat, bv, selected, hv),
            lines_view(out@) == start + spec.take(i + 1),
        decreases rest.len(),
    {
        let ghost r0 = rest@;
        let line = rest.remove(0);
        proof {
            assert(r0.len() > 0);
            assert(line == r0[0]);
            assert(lines_view(r0).len() == r0.len());
            assert(bv.skip(i as int).len() > 0);
            assert(lines_view(r0)[0] == line_view(r0[0]));
            assert(line_view(line) == bv[i as int]);
            assert(rest@ =~= r0.drop_first());
            assert forall|k: int| 0 <= k < rest@.len() implies lines_view(rest@)[k] == bv.skip(i + 1)[k] by {
                assert(rest@[k] == r0[k + 1]);
                assert(lines_view(r0)[k + 1] == line_view(r0[k + 1]));
                assert(lines_view(r0)[k + 1] == bv.skip(i as int)[k + 1]);
            }
            assert(lines_view(rest@) =~= bv.skip(i + 1));
        }
        let bw = width_of_line(&line);
        let pad: usize = if inner >= bw {
            inner - bw
        } else {
            0
        };
        let mut tail: Vec<char> = Vec::new();
        push_repeated(&mut tail, ' ', pad);
        push_str_chars(&mut tail, " │");
        let mut runs: Vec<Run> = Vec::new();
        runs.push(run(String::from_str("│ "), Tone::Dim, false));
        let ghost lv = line_view(line);
        let mut lr = line.runs;
        runs.append(&mut lr);
        runs.push(run(text_of(&tail), Tone::Dim, false));
        let l = StyledLine { runs };
        assert(line_view(l) =~= seq![plain("│ "@, Tone::Dim)] + lv + seq![
            plain(spaces(sat_sub(inner as int, line_width(lv) as int)) + " │"@, Tone::Dim),
        ]);
        let ghost prev = lines_view(out@);
        push_line(out, l);
        assert(start + spec.take(i + 2) =~= prev.push(spec[i + 1]));
        i += 1;
    }
    assert(i == bv.len()) by {
        assert(bv.skip(i as int).len() == 0);
    }
    match hint {
        Some(h) => {
            let hw = width_of(&chars_of(h));
            let pad: usize = if inner >= hw {
                inner - hw
            } else {
                0
            };
            let mut tail: Vec<char> = Vec::new();
            push_repeated(&mut tail, ' ', pad);
            push_str_chars(&mut tail, " │");
            let runs = vec![
                run(String::from_str("│ "), Tone::Dim, false),
                run(String::from_str(h), Tone::Dim, false),
                run(text_of(&tail), Tone::Dim, false),
            ];
            let l = StyledLine { runs };
            assert(line_view(l) =~= seq![
                plain("│ "@, Tone::Dim),
                plain(h@, Tone::Dim),
                plain(spaces(sat_sub(inner as int, display_width(h@) as int)) + " │"@, Tone::Dim),
            ]);
            push_line(out, l);
        },
        None => {},
    }
    let ghost mid = lines_view(out@);
    let ghost hint_lines = match hv {
        Some(h) => seq![
            seq![
                plain("│ "@, Tone::Dim),
                plain(h, Tone::Dim),
                plain(spaces(sat_sub(inner as int, display_width(h) as int)) + " │"@, Tone::Dim),
            ],
        ],
        None => Seq::<Seq<RunV>>::empty(),
    };
    assert(mid =~= start + spec.take(n + 1) + hint_lines);
    let mut bottom = chars_of("└");
    push_repeated(&mut bottom, '─', dashes);
    push_str_chars(&mut bottom, "┘");
    proof {
        reveal_strlit("└");
        reveal_strlit("┘");
    }
    push_line(out, line1(run(text_of(&bottom), Tone::Dim, false)));
    assert(spec =~= spec.take(n + 1) + hint_lines + seq![seq![plain("└"@ + repeated('─', dashes as nat) + "┘"@, Tone::Dim)]]);
    assert(lines_view(out@) =~= start + spec);
}

/// A prompt block: a blank line before every prompt but the first, then
/// the prompt wrapped to fit inside a border titled "You".
pub open spec fn user_block_spec(text: Seq<char>, index: usize, width: usize) -> Seq<Seq<RunV>> {
    let inner: nat = if sat_sub(width as int, 4) < 10 { 10 } else { sat_sub(width as int, 4) };
    let segs = wrap_text_spec(text, inner);
    (if index > 0 { seq![Seq::<RunV>::empty()] } else { seq![] }) + bordered_spec(
        "You"@,
        width as nat,
        Seq::new(segs.len(), |i: int| seq![plain(segs[i], Tone::Text)]),
        false,
        None,
    )
}

/// The lines of the `index`-th block of the timeline when it is a prompt.
pub fn user_block_lines(text: &str, index: usize, width: usize) -> (r: Vec<StyledLine>)
    ensures
        lines_view(r@) == user_block_spec(text@, index, width),
{
    let mut out: Vec<StyledLine> = Vec::new();
    if index > 0 {
        push_line(&mut out, blank_line());
    }
    let w4: usize = if width >= 4 {
        width - 4
    } else {
        0
    };
    let inner: usize = if w4 < 10 {
        10
    } else {
        w4
    };
    let segs = wrap_text(text, inner);
    let ghost sv = crate::goal::strs(segs@);
    let mut body: Vec<StyledLine> = Vec::new();
    for i in 0..segs.len()
        invariant
            sv == crate::goal::strs(segs@),
            lines_view(body@) == Seq::new(sv.len(), |k: int| seq![plain(sv[k], Tone::Text)]).take(i as int),
    {
        let ghost prev = lines_view(body@);
        push_line(&mut body, line1(run(segs[i].clone(), Tone::Text, false)));
        assert(Seq::new(sv.len(), |k: int| seq![plain(sv[k], Tone::Text)]).take(i + 1) =~= prev.push(
            seq![plain(sv[i as int], Tone::Text)],
        ));
    }
    assert(Seq::new(sv.len(), |k: int| seq![plain(sv[k], Tone::Text)]).take(segs@.len() as int) =~= Seq::new(
        sv.len(),
        |k: int| seq![plain(sv[k], Tone::Text)],
    ));
    let ghost top = lines_view(out@);
    bordered(&mut out, "You", width, body, false, None);
    proof {
        reveal_strlit("You");
    }
    assert(lines_view(out@) =~= user_block_spec(text@, index, width));
    out
}

/// `s` right-aligned in `w` columns.
pub open spec fn lpad(s: Seq<char>, w: nat) -> Seq<char> {
    if s.len() < w {
        spaces((w - s.len()) as nat) + s
    } else {
        s
    }
}

/// A line number, or nothing.
pub open spec fn num_text(n: Option<u32>) -> Seq<char> {
    match n {
        Some(k) => decimal(k as nat),
        None => seq![],
    }
}

/// One row of a diff block: hunk headers in the accent tone, file headers
/// dimmed, other rows after their old and new line numbers, marked and
/// toned by kind.
pub open spec fn diff_row_line(row: DiffRowView, w: int, text_w: nat) -> Seq<RunV> {
    if row.kind == '@' {
        seq![plain(truncate_width_spec(row.text, (w - 6) as nat), Tone::Accent)]
    } else if row.kind == 'h' {
        seq![plain(truncate_width_spec(row.text, (w - 6) as nat), Tone::Dim)]
    } else {
        let (sign, tone) = if row.kind == '-' {
            ("- "@, Tone::Error)
        } else if row.kind == '+' {
            ("+ "@, Tone::Success)
        } else {
            ("  "@, Tone::Dim)
        };
        seq![
            plain("  "@ + lpad(num_text(row.old), 5) + " "@ + lpad(num_text(row.new), 5) + " │ "@, Tone::Dim),
            plain(sign + truncate_width_spec(row.text, sat_sub(text_w as int, 2)), tone),
        ]
    }
}

/// A diff block: its first 12 rows (all when expanded) in a border titled
/// with the file, with a hint counting the rows left out.
pub open spec fn diff_block_spec(file: Seq<char>, body: Seq<char>, expanded: bool, width: usize, selected: bool) -> Seq<
    Seq<RunV>,
> {
    let rows = diff_state(str_lines(body)).0;
    let w: int = if width < 10 { 10 } else { width as int };
    let text_w = sat_sub(w, 21);
    let shown: int = if expanded || rows.len() < 12 { rows.len() as int } else { 12 };
    bordered_spec(
        file,
        w as nat,
        Seq::new(shown as nat, |i: int| diff_row_line(rows[i], w, text_w)),
        selected,
        if rows.len() > shown {
            Some("… +"@ + decimal((rows.len() - shown) as nat) + " baris · [Show — Enter]"@)
        } else {
            None
        },
    )
}

fn push_padded_num(out: &mut Vec<char>, n: Option<u32>)
    ensures
        final(out)@ == old(out)@ + lpad(num_text(n), 5),
{
    let mut t: Vec<char> = Vec::new();
    match n {
        Some(k) => push_u64(&mut t, k as u64),
        None => {},
    }
    if t.len() < 5 {
        push_repeated(out, ' ', 5 - t.len());
    }
    crate::text::extend_chars(out, &t);
    assert(t@ == num_text(n));
    assert(out@ =~= old(out)@ + lpad(num_text(n), 5));
}

/// The lines of a diff block in the timeline.
pub fn diff_block_lines(file: &str, body: &str, expanded: bool, width: usize, selected: bool) -> (r: Vec<StyledLine>)
    requires
        diff_fits(str_lines(body@)),
    ensures
        lines_view(r@) == diff_block_spec(file@, body@, expanded, width, selected),
{
    let rows = parse_unified_diff(body);
    let ghost rv = rows_view(rows@);
    let w: usize = if width < 10 {
        10
    } else {
        width
    };
    let text_w: usize = if w >= 21 {
        w - 21
    } else {
        0
    };
    let shown = if expanded || rows.len() < 12 {
        rows.len()
    } else {
        12
    };
    let ghost want = Seq::new(shown as nat, |i: int| diff_row_line(rv[i], w as int, text_w as nat));
    let mut lines: Vec<StyledLine> = Vec::new();
    for i in 0..shown
        invariant
            shown <= rows@.len(),
            rv == rows_view(rows@),
            w >= 10,
            want == Seq::new(shown as nat, |i: int| diff_row_line(rv[i], w as int, text_w as nat)),
            lines_view(lines@) == want.take(i as int),
    {
        let row = &rows[i];
        assert(rv[i as int] == rows@[i as int]@);
        let l = if row.kind == '@' || row.kind == 'h' {
            let t = truncate_width(row.text.as_str(), w - 6);
            line1(run(t, if row.kind == '@' {
                Tone::Accent
            } else {
                Tone::Dim
            }, false))
        } else {
            let mut g = chars_of("  ");
            push_padded_num(&mut g, row.old);
            g.push(' ');
            push_padded_num(&mut g, row.new);
            push_str_chars(&mut g, " │ ");
            let (sign, tone) = if row.kind == '-' {
                ("- ", Tone::Error)
            } else if row.kind == '+' {
                ("+ ", Tone::Success)
            } else {
                ("  ", Tone::Dim)
            };
            let mut c = chars_of(sign);
            let tw2: usize = if text_w >= 2 {
                text_w - 2
            } else {
                0
            };
            push_str_chars(&mut c, truncate_width(row.text.as_str(), tw2).as_str());
            proof {
                reveal_strlit(" ");
                assert(g@ =~= "  "@ + lpad(num_text(row.old), 5) + " "@ + lpad(num_text(row.new), 5) + " │ "@);
                assert(tw2 == sat_sub(text_w as int, 2));
            }
            let l2 = line2(run(text_of(&g), Tone::Dim, false), run(text_of(&c), tone, false));
            assert(line_view(l2) =~= diff_row_line(rv[i as int], w as int, text_w as nat));
            l2
        };
        assert(line_view(l) == want[i as int]);
        let ghost prev = lines_view(lines@);
        push_line(&mut lines, l);
        assert(want.take(i + 1) =~= prev.push(want[i as int]));
    }
    assert(want.take(shown as int) =~= want);
    let mut out: Vec<StyledLine> = Vec::new();
    if rows.len() > shown {
        let mut h = chars_of("… +");
        push_u64(&mut h, (rows.len() - shown) as u64);
        push_str_chars(&mut h, " baris · [Show — Enter]");
        let hs = text_of(&h);
        bordered(&mut out, file, w, lines, selected, Some(hs.as_str()));
    } else {
        bordered(&mut out, file, w, lines, selected, None);
    }
    assert(lines_view(out@) =~= diff_block_spec(file@, body@, expanded, width, selected));
    out
}

} // verus!
