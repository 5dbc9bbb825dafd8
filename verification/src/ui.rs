//! What stands on the terminal client's screen: the texts of the header, the
//! two tables and the status bar, and how each is set.
//!
//! Drawing itself happens outside.

use vstd::prelude::*;
use vstd::string::StringExecFns;

use crate::app::{App, Focus, Screen};
use crate::proto::{AppInfo, AppView, FlowInfo, FlowView, Proto, ProxyStatus, RouteAction};
use crate::text::{decimal, decimal_string, digit_char, push_decimal};

verus! {

/// The columns that `Span::width` of `ratatui` gives a text.
pub uninterp spec fn display_width(s: Seq<char>) -> nat;

/// Calls `Span::width` of `ratatui` on a span of the text. The result is a
/// function of the text.
#[verifier::external_body]
fn measure(s: &str) -> (w: usize)
    ensures
        w == display_width(s@),
{
    ratatui::text::Span::raw(s).width()
}

/// What a text or a background is for, by which it is coloured.
#[derive(Debug, Clone, Copy, PartialEq, Eq, Structural)]
pub enum Tone {
    Plain,
    Accent,
    Header,
    Good,
    Warn,
    Bad,
    Muted,
    Proxy,
    Tcp,
    HighlightBg,
    BarBg,
    BytesIn,
    BytesOut,
}

/// A colour of the terminal.
#[derive(Debug, Clone, Copy, PartialEq, Eq, Structural)]
pub enum Paint {
    /// Whatever the terminal has.
    Unset,
    Cyan,
    Green,
    Yellow,
    Red,
    DarkGray,
    Magenta,
    Blue,
    Rgb { r: u8, g: u8, b: u8 },
}

impl Tone {
    /// The colour of the tone.
    pub open spec fn colour(self) -> Paint {
        match self {
            Tone::Plain => Paint::Unset,
            Tone::Accent => Paint::Cyan,
            Tone::Header => Paint::Rgb { r: 180, g: 180, b: 220 },
            Tone::Good => Paint::Green,
            Tone::Warn => Paint::Yellow,
            Tone::Bad => Paint::Red,
            Tone::Muted => Paint::DarkGray,
            Tone::Proxy => Paint::Magenta,
            Tone::Tcp => Paint::Blue,
            Tone::HighlightBg => Paint::Rgb { r: 40, g: 40, b: 60 },
            Tone::BarBg => Paint::Rgb { r: 30, g: 30, b: 40 },
            Tone::BytesIn => Paint::Rgb { r: 100, g: 200, b: 100 },
            Tone::BytesOut => Paint::Rgb { r: 100, g: 150, b: 255 },
        }
    }

    /// The colour of the tone.
    pub fn paint(&self) -> (p: Paint)
        ensures
            p == self.colour(),
    {
        match self {
            Tone::Plain => Paint::Unset,
            Tone::Accent => Paint::Cyan,
            Tone::Header => Paint::Rgb { r: 180, g: 180, b: 220 },
            Tone::Good => Paint::Green,
            Tone::Warn => Paint::Yellow,
            Tone::Bad => Paint::Red,
            Tone::Muted => Paint::DarkGray,
            Tone::Proxy => Paint::Magenta,
            Tone::Tcp => Paint::Blue,
            Tone::HighlightBg => Paint::Rgb { r: 40, g: 40, b: 60 },
            Tone::BarBg => Paint::Rgb { r: 30, g: 30, b: 40 },
            Tone::BytesIn => Paint::Rgb { r: 100, g: 200, b: 100 },
            Tone::BytesOut => Paint::Rgb { r: 100, g: 150, b: 255 },
        }
    }
}

/// A text and how it is set.
#[derive(Debug)]
pub struct TextSpan {
    pub text: String,
    pub tone: Tone,
    pub bold: bool,
}

/// The contents of a `TextSpan`.
#[verifier::ext_equal]
pub struct SpanView {
    pub text: Seq<char>,
    pub tone: Tone,
    pub bold: bool,
}

impl View for TextSpan {
    type V = SpanView;

    open spec fn view(&self) -> SpanView {
        SpanView { text: self.text@, tone: self.tone, bold: self.bold }
    }
}

/// The contents of a list of spans.
pub open spec fn span_views(s: Seq<TextSpan>) -> Seq<SpanView> {
    s.map_values(|x: TextSpan| x@)
}

/// A text in a tone.
pub open spec fn toned(text: Seq<char>, tone: Tone) -> SpanView {
    SpanView { text, tone, bold: false }
}

/// A text in a tone, and bold.
pub open spec fn bold(text: Seq<char>, tone: Tone) -> SpanView {
    SpanView { text, tone, bold: true }
}

/// A text in no particular tone.
pub open spec fn plain(text: Seq<char>) -> SpanView {
    toned(text, Tone::Plain)
}

fn make_toned(text: String, tone: Tone) -> (s: TextSpan)
    ensures
        s@ == toned(text@, tone),
{
    TextSpan { text, tone, bold: false }
}

fn make_bold(text: String, tone: Tone) -> (s: TextSpan)
    ensures
        s@ == bold(text@, tone),
{
    TextSpan { text, tone, bold: true }
}

fn make_plain(text: String) -> (s: TextSpan)
    ensures
        s@ == plain(text@),
{
    make_toned(text, Tone::Plain)
}

/// The distance between neighbouring numbers of 53 significant bits around `n`,
/// if it is `step` at least.
pub open spec fn spacing(n: nat, step: nat) -> nat
    decreases (if n >= step * 0x20_0000_0000_0000 { n - step * 0x20_0000_0000_0000 + 1 } else { 0 }),
{
    if step == 0 || n < step * 0x20_0000_0000_0000 {
        step
    } else {
        spacing(n, 2 * step)
    }
}

/// `n / d` rounded to the nearest whole number, and to the even one of two
/// equally near.
pub open spec fn rounded(n: nat, d: nat) -> nat {
    let q = n / d;
    let r = n % d;
    if 2 * r < d || (2 * r == d && q % 2 == 0) {
        q
    } else {
        q + 1
    }
}

/// The number of 53 significant bits nearest to `n`.
pub open spec fn rounded_to_53_bits(n: nat) -> nat {
    rounded(n, spacing(n, 1)) * spacing(n, 1)
}

/// `n / unit` in decimal with one digit after the point.
pub open spec fn one_decimal(n: nat, unit: nat) -> Seq<char> {
    let t = rounded(n * 10, unit);
    decimal(t / 10) + "."@ + seq![digit_char(t % 10)]
}

/// A byte count as people read it: in bytes below one KiB, and with one digit
/// after the point in the largest unit that it reaches otherwise.
pub open spec fn byte_text(bytes: u64) -> Seq<char> {
    let n = rounded_to_53_bits(bytes as nat);
    if bytes >= 0x4000_0000 {
        one_decimal(n, 0x4000_0000) + " GiB"@
    } else if bytes >= 0x10_0000 {
        one_decimal(n, 0x10_0000) + " MiB"@
    } else if bytes >= 0x400 {
        one_decimal(n, 0x400) + " KiB"@
    } else {
        decimal(bytes as nat) + " B"@
    }
}

/// Divides and rounds to the nearest whole number, ties to the even one.
fn round(n: u128, d: u128) -> (r: u128)
    requires
        0 < d <= 0x4000_0000,
        n < 0x1_0000_0000_0000_0000_0000_0000,
    ensures
        r == rounded(n as nat, d as nat),
        r <= n / d + 1,
{
    let q: u128 = n / d;
    let r: u128 = n % d;
    if 2 * r < d || (2 * r == d && q % 2 == 0) {
        q
    } else {
        q + 1
    }
}

/// Rounds to 53 significant bits.
fn round_to_53_bits(n: u64) -> (r: u128)
    ensures
        r == rounded_to_53_bits(n as nat),
        r <= n + 0x1000,
{
    let wide: u128 = n as u128;
    let mut unit: u128 = 1;
    while wide >= unit * 0x20_0000_0000_0000
        invariant
            1 <= unit <= 0x1000,
            wide == n,
            spacing(n as nat, 1) == spacing(n as nat, unit as nat),
        decreases 0x1000 - unit,
    {
        unit = 2 * unit;
    }
    let q: u128 = round(wide, unit);
    assert(q * unit <= n + unit) by (nonlinear_arith)
        requires
            q <= wide / unit + 1,
            wide == n,
            unit >= 1,
    ;
    q * unit
}

/// Appends `n / unit` with one digit after the point.
fn push_one_decimal(s: &mut String, n: u128, unit: u128)
    requires
        0x400 <= unit <= 0x4000_0000,
        n <= 0x1_0000_0000_0000_1000,
    ensures
        final(s)@ == old(s)@ + one_decimal(n as nat, unit as nat),
{
    let t: u128 = round(n * 10, unit);
    assert(t <= n * 10 / 0x400 + 1) by (nonlinear_arith)
        requires
            t <= (n * 10) / (unit as int) + 1,
            unit >= 0x400,
    ;
    push_decimal(s, (t / 10) as u64);
    s.append(".");
    let d: u8 = (t % 10) as u8;
    s.push((48 + d) as char);
    assert(s@ == old(s)@ + one_decimal(n as nat, unit as nat));
}

/// Writes a byte count as people read it.
pub fn format_bytes(bytes: u64) -> (s: String)
    ensures
        s@ == byte_text(bytes),
{
    let mut s = String::new();
    let n: u128 = round_to_53_bits(bytes);
    if bytes >= 0x4000_0000 {
        push_one_decimal(&mut s, n, 0x4000_0000);
        s.append(" GiB");
    } else if bytes >= 0x10_0000 {
        push_one_decimal(&mut s, n, 0x10_0000);
        s.append(" MiB");
    } else if bytes >= 0x400 {
        push_one_decimal(&mut s, n, 0x400);
        s.append(" KiB");
    } else {
        push_decimal(&mut s, bytes);
        s.append(" B");
    }
    assert(s@ =~= byte_text(bytes));
    s
}

/// The bytes received on all flows.
pub open spec fn total_in(flows: Seq<FlowView>) -> nat
    decreases flows.len(),
{
    if flows.len() == 0 {
        0
    } else {
        total_in(flows.drop_last()) + flows.last().bytes_in as nat
    }
}

/// The bytes sent on all flows.
pub open spec fn total_out(flows: Seq<FlowView>) -> nat
    decreases flows.len(),
{
    if flows.len() == 0 {
        0
    } else {
        total_out(flows.drop_last()) + flows.last().bytes_out as nat
    }
}

/// The bytes that came in and went out over all flows shown.
pub open spec fn traffic(s: Screen) -> (nat, nat) {
    (total_in(s.flows), total_out(s.flows))
}

/// Adds up the bytes on all flows, in and out; `None` where a sum is beyond 64
/// bits.
pub fn totals(app: &App) -> (r: Option<(u64, u64)>)
    ensures
        (match r {
            Some((i, o)) => traffic(app@) == (i as nat, o as nat) && i == total_in(app@.flows) && o
                == total_out(app@.flows),
            None => total_in(app@.flows) > u64::MAX || total_out(app@.flows) > u64::MAX,
        }),
{
    let mut sum_in: u64 = 0;
    let mut sum_out: u64 = 0;
    let ghost all = app@.flows;
    for k in 0..app.flows.len()
        invariant
            all == app@.flows,
            sum_in == total_in(all.take(k as int)),
            sum_out == total_out(all.take(k as int)),
    {
        proof {
            assert(all.take(k + 1).drop_last() == all.take(k as int));
            assert(all[k as int] == app.flows@[k as int]@);
            lemma_totals_grow(all, k + 1);
        }
        match (
            sum_in.checked_add(app.flows[k].bytes_in),
            sum_out.checked_add(app.flows[k].bytes_out),
        ) {
            (Some(i), Some(o)) => {
                sum_in = i;
                sum_out = o;
            },
            _ => {
                return None;
            },
        }
    }
    assert(all.take(all.len() as int) == all);
    Some((sum_in, sum_out))
}

/// More flows never carry fewer bytes.
proof fn lemma_totals_grow(flows: Seq<FlowView>, k: int)
    requires
        0 <= k <= flows.len(),
    ensures
        total_in(flows.take(k)) <= total_in(flows),
        total_out(flows.take(k)) <= total_out(flows),
    decreases flows.len() - k,
{
    if k < flows.len() {
        lemma_totals_grow(flows, k + 1);
        assert(flows.take(k + 1).drop_last() == flows.take(k));
    } else {
        assert(flows.take(k) == flows);
    }
}

/// The proxy's status on the header.
pub open spec fn proxy_span(status: ProxyStatus) -> SpanView {
    match status {
        ProxyStatus::Reachable => toned("proxy:up"@, Tone::Good),
        ProxyStatus::Unreachable => toned("proxy:down"@, Tone::Bad),
        ProxyStatus::Unknown => toned("proxy:?"@, Tone::Warn),
    }
}

/// The header: the title, a dot for the connection, the numbers of applications
/// and flows, the bytes in and out, and the proxy's status.
pub open spec fn header_spans(s: Screen) -> Seq<SpanView> {
    seq![
        bold(" zq"@, Tone::Accent),
        toned(
            " \u{25cf} "@,
            if s.connected {
                Tone::Good
            } else {
                Tone::Bad
            },
        ),
        toned(decimal(s.apps.len()) + " apps"@, Tone::Muted),
        plain("  "@),
        toned(decimal(s.flows.len()) + " flows"@, Tone::Muted),
        plain("  "@),
        toned("\u{2193}"@ + byte_text(total_in(s.flows) as u64), Tone::BytesIn),
        plain("  "@),
        toned("\u{2191}"@ + byte_text(total_out(s.flows) as u64), Tone::BytesOut),
        plain("  "@),
        proxy_span(s.proxy_status),
    ]
}

/// A number and a word.
fn count_text(n: usize, word: &str) -> (s: String)
    ensures
        s@ == decimal(n as nat) + word@,
{
    let mut s = String::new();
    push_decimal(&mut s, n as u64);
    s.append(word);
    s
}

/// A mark and a byte count.
fn marked_bytes(mark: &str, bytes: u64) -> (s: String)
    ensures
        s@ == mark@ + byte_text(bytes),
{
    let mut s = mark.to_string();
    s.append(format_bytes(bytes).as_str());
    s
}

/// Writes the header. The bytes on all flows must be within 64 bits each way.
pub fn header(app: &App) -> (spans: Vec<TextSpan>)
    requires
        total_in(app@.flows) <= u64::MAX,
        total_out(app@.flows) <= u64::MAX,
    ensures
        span_views(spans@) == header_spans(app@),
{
    let (sum_in, sum_out): (u64, u64) = match totals(app) {
        Some(sums) => sums,
        None => (0, 0),
    };
    let dot_tone = if app.connected {
        Tone::Good
    } else {
        Tone::Bad
    };
    let proxy = match app.proxy_status {
        ProxyStatus::Reachable => make_toned("proxy:up".to_string(), Tone::Good),
        ProxyStatus::Unreachable => make_toned("proxy:down".to_string(), Tone::Bad),
        ProxyStatus::Unknown => make_toned("proxy:?".to_string(), Tone::Warn),
    };
    let mut spans: Vec<TextSpan> = Vec::new();
    spans.push(make_bold(" zq".to_string(), Tone::Accent));
    spans.push(make_toned(" \u{25cf} ".to_string(), dot_tone));
    spans.push(make_toned(count_text(app.apps.len(), " apps"), Tone::Muted));
    spans.push(make_plain("  ".to_string()));
    spans.push(make_toned(count_text(app.flows.len(), " flows"), Tone::Muted));
    spans.push(make_plain("  ".to_string()));
    spans.push(make_toned(marked_bytes("\u{2193}", sum_in), Tone::BytesIn));
    spans.push(make_plain("  ".to_string()));
    spans.push(make_toned(marked_bytes("\u{2191}", sum_out), Tone::BytesOut));
    spans.push(make_plain("  ".to_string()));
    spans.push(proxy);
    assert(span_views(spans@) =~= header_spans(app@));
    spans
}

/// How wide a column is.
#[derive(Debug, Clone, Copy, PartialEq, Eq, Structural)]
pub enum Width {
    /// At least this much, and what is left over.
    Min(u16),
    /// This much.
    Length(u16),
}

/// A table: its title, its columns, its rows, the tone of its border and the
/// row that is selected.
#[derive(Debug)]
pub struct TableModel {
    pub title: &'static str,
    pub headers: Vec<&'static str>,
    pub widths: Vec<Width>,
    pub rows: Vec<Vec<TextSpan>>,
    pub border: Tone,
    pub selected: Option<usize>,
}

/// The contents of a `TableModel`.
#[verifier::ext_equal]
pub struct TableView {
    pub title: Seq<char>,
    pub headers: Seq<Seq<char>>,
    pub widths: Seq<Width>,
    pub rows: Seq<Seq<SpanView>>,
    pub border: Tone,
    pub selected: Option<usize>,
}

/// The contents of a list of rows.
pub open spec fn row_views(s: Seq<Vec<TextSpan>>) -> Seq<Seq<SpanView>> {
    s.map_values(|r: Vec<TextSpan>| span_views(r@))
}

impl View for TableModel {
    type V = TableView;

    open spec fn view(&self) -> TableView {
        TableView {
            title: self.title@,
            headers: self.headers@.map_values(|h: &'static str| h@),
            widths: self.widths@,
            rows: row_views(self.rows@),
            border: self.border,
            selected: self.selected,
        }
    }
}

/// The cell on a routing.
pub open spec fn route_cell(action: RouteAction) -> SpanView {
    match action {
        RouteAction::Passthrough => toned("PASS"@, Tone::Muted),
        RouteAction::RouteToProxy => bold("PROXY"@, Tone::Proxy),
    }
}

fn make_route_cell(action: RouteAction) -> (s: TextSpan)
    ensures
        s@ == route_cell(action),
{
    match action {
        RouteAction::Passthrough => make_toned("PASS".to_string(), Tone::Muted),
        RouteAction::RouteToProxy => make_bold("PROXY".to_string(), Tone::Proxy),
    }
}

/// The cell on a protocol.
pub open spec fn proto_cell(proto: Proto) -> SpanView {
    match proto {
        Proto::Tcp => toned("TCP"@, Tone::Tcp),
        Proto::Udp => toned("UDP"@, Tone::Warn),
    }
}

/// Numbers in decimal with commas between them.
pub open spec fn comma_list(pids: Seq<u32>) -> Seq<char>
    decreases pids.len(),
{
    if pids.len() == 0 {
        Seq::empty()
    } else if pids.len() == 1 {
        decimal(pids[0] as nat)
    } else {
        comma_list(pids.drop_last()) + ","@ + decimal(pids.last() as nat)
    }
}

/// Writes numbers with commas between them.
fn write_comma_list(pids: &Vec<u32>) -> (s: String)
    ensures
        s@ == comma_list(pids@),
{
    let mut s = String::new();
    for i in 0..pids.len()
        invariant
            s@ == comma_list(pids@.take(i as int)),
    {
        if i > 0 {
            s.append(",");
        }
        push_decimal(&mut s, pids[i] as u64);
        assert(pids@.take(i + 1).drop_last() == pids@.take(i as int));
        if i == 0 {
            assert(s@ =~= decimal(pids@[0] as nat));
        }
    }
    assert(pids@.take(pids@.len() as int) == pids@);
    s
}

/// The row of an application.
pub open spec fn app_row(a: AppView) -> Seq<SpanView> {
    seq![
        plain(a.name),
        plain(comma_list(a.pids)),
        plain(decimal(a.flow_count as nat)),
        toned(byte_text(a.bytes_in), Tone::BytesIn),
        toned(byte_text(a.bytes_out), Tone::BytesOut),
        route_cell(a.routing),
    ]
}

/// Writes the row of an application.
fn make_app_row(a: &AppInfo) -> (row: Vec<TextSpan>)
    ensures
        span_views(row@) == app_row(a@),
{
    let mut row: Vec<TextSpan> = Vec::new();
    row.push(make_plain(a.name.clone()));
    row.push(make_plain(write_comma_list(&a.pids)));
    row.push(make_plain(decimal_string(a.flow_count as u64)));
    row.push(make_toned(format_bytes(a.bytes_in), Tone::BytesIn));
    row.push(make_toned(format_bytes(a.bytes_out), Tone::BytesOut));
    row.push(make_route_cell(a.routing));
    assert(span_views(row@) =~= app_row(a@));
    row
}

/// The row of a flow.
pub open spec fn flow_row(f: FlowView) -> Seq<SpanView> {
    seq![
        plain(decimal(f.flow_id as nat)),
        plain(f.process_name),
        proto_cell(f.proto),
        plain(f.remote_addr),
        toned(byte_text(f.bytes_in), Tone::BytesIn),
        toned(byte_text(f.bytes_out), Tone::BytesOut),
        route_cell(f.routing),
    ]
}

/// Writes the row of a flow.
fn make_flow_row(f: &FlowInfo) -> (row: Vec<TextSpan>)
    ensures
        span_views(row@) == flow_row(f@),
{
    let proto = match f.proto {
        Proto::Tcp => make_toned("TCP".to_string(), Tone::Tcp),
        Proto::Udp => make_toned("UDP".to_string(), Tone::Warn),
    };
    let mut row: Vec<TextSpan> = Vec::new();
    row.push(make_plain(decimal_string(f.flow_id)));
    row.push(make_plain(f.process_name.clone()));
    row.push(proto);
    row.push(make_plain(f.remote_addr.clone()));
    row.push(make_toned(format_bytes(f.bytes_in), Tone::BytesIn));
    row.push(make_toned(format_bytes(f.bytes_out), Tone::BytesOut));
    row.push(make_route_cell(f.routing));
    assert(span_views(row@) =~= flow_row(f@));
    row
}

/// The tone of a panel's border.
pub open spec fn border_tone(focused: bool) -> Tone {
    if focused {
        Tone::Accent
    } else {
        Tone::Muted
    }
}

/// The row to highlight: the selected one of the panel in focus, if it has any.
pub open spec fn highlighted(focused: bool, selected: usize, len: nat) -> Option<usize> {
    if len > 0 && focused {
        Some(selected)
    } else {
        None
    }
}

/// The table of applications.
pub open spec fn apps_view(s: Screen) -> TableView {
    TableView {
        title: " Applications "@,
        headers: seq!["Name"@, "PIDs"@, "Flows"@, "In"@, "Out"@, "Route"@],
        widths: seq![
            Width::Min(16),
            Width::Length(12),
            Width::Length(6),
            Width::Length(10),
            Width::Length(10),
            Width::Length(8),
        ],
        rows: s.apps.map_values(|a: AppView| app_row(a)),
        border: border_tone(s.focus == Focus::Apps),
        selected: highlighted(s.focus == Focus::Apps, s.selected_app, s.apps.len()),
    }
}

/// Lays out the table of applications.
pub fn apps_table(app: &App) -> (t: TableModel)
    ensures
        t@ == apps_view(app@),
{
    let mut rows: Vec<Vec<TextSpan>> = Vec::new();
    for i in 0..app.apps.len()
        invariant
            row_views(rows@) == app@.apps.take(i as int).map_values(|a: AppView| app_row(a)),
    {
        let ghost before = rows@;
        let row = make_app_row(&app.apps[i]);
        let ghost r = span_views(row@);
        rows.push(row);
        assert(row_views(rows@) =~= row_views(before).push(r));
        assert(app@.apps.take(i + 1) =~= app@.apps.take(i as int).push(app.apps@[i as int]@));
        assert(row_views(rows@) =~= app@.apps.take(i + 1).map_values(|a: AppView| app_row(a)));
    }
    assert(app@.apps.take(app@.apps.len() as int) =~= app@.apps);
    let focused: bool = app.focus == Focus::Apps;
    let selected: Option<usize> = if app.apps.len() > 0 && focused {
        Some(app.selected_app)
    } else {
        None
    };
    let t = TableModel {
        title: " Applications ",
        headers: vec!["Name", "PIDs", "Flows", "In", "Out", "Route"],
        widths: vec![
            Width::Min(16),
            Width::Length(12),
            Width::Length(6),
            Width::Length(10),
            Width::Length(10),
            Width::Length(8),
        ],
        rows,
        border: if focused {
            Tone::Accent
        } else {
            Tone::Muted
        },
        selected,
    };
    assert(t@ =~= apps_view(app@));
    t
}

/// The table of flows.
pub open spec fn flows_view(s: Screen) -> TableView {
    TableView {
        title: " Flows "@,
        headers: seq!["ID"@, "App"@, "Proto"@, "Remote"@, "In"@, "Out"@, "Route"@],
        widths: seq![
            Width::Length(6),
            Width::Min(12),
            Width::Length(5),
            Width::Length(22),
            Width::Length(10),
            Width::Length(10),
            Width::Length(8),
        ],
        rows: s.flows.map_values(|f: FlowView| flow_row(f)),
        border: border_tone(s.focus == Focus::Flows),
        selected: highlighted(s.focus == Focus::Flows, s.selected_flow, s.flows.len()),
    }
}

/// Lays out the table of flows.
pub fn flows_table(app: &App) -> (t: TableModel)
    ensures
        t@ == flows_view(app@),
{
    let mut rows: Vec<Vec<TextSpan>> = Vec::new();
    for i in 0..app.flows.len()
        invariant
            row_views(rows@) == app@.flows.take(i as int).map_values(|f: FlowView| flow_row(f)),
    {
        let ghost before = rows@;
        let row = make_flow_row(&app.flows[i]);
        let ghost r = span_views(row@);
        rows.push(row);
        assert(row_views(rows@) =~= row_views(before).push(r));
        assert(app@.flows.take(i + 1) =~= app@.flows.take(i as int).push(app.flows@[i as int]@));
        assert(row_views(rows@) =~= app@.flows.take(i + 1).map_values(|f: FlowView| flow_row(f)));
    }
    assert(app@.flows.take(app@.flows.len() as int) =~= app@.flows);
    let focused: bool = app.focus == Focus::Flows;
    let selected: Option<usize> = if app.flows.len() > 0 && focused {
        Some(app.selected_flow)
    } else {
        None
    };
    let t = TableModel {
        title: " Flows ",
        headers: vec!["ID", "App", "Proto", "Remote", "In", "Out", "Route"],
        widths: vec![
            Width::Length(6),
            Width::Min(12),
            Width::Length(5),
            Width::Length(22),
            Width::Length(10),
            Width::Length(10),
            Width::Length(8),
        ],
        rows,
        border: if focused {
            Tone::Accent
        } else {
            Tone::Muted
        },
        selected,
    };
    assert(t@ =~= flows_view(app@));
    t
}

/// The keys and what they do.
pub const HELP: &'static str = "[Tab] Focus  [r] Route  [g] Global  [\u{2191}/\u{2193}] Select  [q] Quit";

/// The smaller of two.
pub open spec fn smaller(a: nat, b: nat) -> nat {
    if a <= b {
        a
    } else {
        b
    }
}

/// The blanks between the left and the right part of a bar: what is left of its
/// width, and one at least. There is no telling where the two parts, each cut
/// to the width, are wider than the bar together.
pub open spec fn bar_gap(width: nat, left: nat, right: nat) -> Option<nat> {
    let used = smaller(left, width) + smaller(right, width);
    if used > width {
        None
    } else if used == width {
        Some(1)
    } else {
        Some((width - used) as nat)
    }
}

/// Computes the blanks between the left and the right part of a bar.
pub fn gap(width: u16, left: usize, right: usize) -> (g: Option<usize>)
    ensures
        (match g {
            Some(n) => bar_gap(width as nat, left as nat, right as nat) == Some(n as nat),
            None => bar_gap(width as nat, left as nat, right as nat) is None,
        }),
{
    let w: usize = width as usize;
    let l: usize = if left <= w {
        left
    } else {
        w
    };
    let r: usize = if right <= w {
        right
    } else {
        w
    };
    if l > w - r {
        None
    } else if l == w - r {
        Some(1)
    } else {
        Some(w - r - l)
    }
}

/// That many blanks.
pub open spec fn blanks(n: nat) -> Seq<char> {
    Seq::new(n, |i: int| ' ')
}

/// Writes that many blanks.
fn write_blanks(n: usize) -> (s: String)
    ensures
        s@ == blanks(n as nat),
{
    let mut s = String::new();
    for i in 0..n
        invariant
            s@ == blanks(i as nat),
    {
        s.push(' ');
        assert(s@ =~= blanks((i + 1) as nat));
    }
    s
}

/// The status bar with a gap: the message on the left, the help on the right.
pub open spec fn bar_spans(message: Seq<char>, gap: nat) -> Seq<SpanView> {
    seq![
        plain(" "@),
        toned(message, Tone::Muted),
        plain(blanks(gap)),
        toned(HELP@, Tone::Muted),
        plain(" "@),
    ]
}

/// Writes the status bar with a gap.
pub fn bar_with_gap(message: &str, gap: usize) -> (spans: Vec<TextSpan>)
    ensures
        span_views(spans@) == bar_spans(message@, gap as nat),
{
    let mut spans: Vec<TextSpan> = Vec::new();
    spans.push(make_plain(" ".to_string()));
    spans.push(make_toned(message.to_string(), Tone::Muted));
    spans.push(make_plain(write_blanks(gap)));
    spans.push(make_toned(HELP.to_string(), Tone::Muted));
    spans.push(make_plain(" ".to_string()));
    assert(span_views(spans@) =~= bar_spans(message@, gap as nat));
    spans
}

/// The gap of the status bar of a screen of that width.
pub open spec fn status_gap(s: Screen, width: u16) -> Option<nat> {
    bar_gap(
        width as nat,
        display_width(" "@) + display_width(s.status_message),
        display_width(HELP@) + 1,
    )
}

/// The status bar of a screen of that width; `None` where the message and the help
/// do not fit on it side by side.
pub open spec fn status_spans(s: Screen, width: u16) -> Option<Seq<SpanView>> {
    match status_gap(s, width) {
        Some(n) => Some(bar_spans(s.status_message, n)),
        None => None,
    }
}

/// Writes the status bar of a screen of that width; `None` where the message
/// and the help do not fit on it side by side.
pub fn status_bar(app: &App, width: u16) -> (r: Option<Vec<TextSpan>>)
    ensures
        (match r {
            Some(spans) => status_gap(app@, width) is Some && span_views(spans@) == bar_spans(
                app@.status_message,
                status_gap(app@, width)->0,
            ),
            None => status_gap(app@, width) is None,
        }),
        r matches Some(spans) ==> status_spans(app@, width) == Some(span_views(spans@)),
        r is None ==> status_spans(app@, width) is None,
{
    let left: usize = measure(" ").saturating_add(measure(app.status_message.as_str()));
    let right: usize = measure(HELP).saturating_add(1);
    match gap(width, left, right) {
        Some(n) => Some(bar_with_gap(app.status_message.as_str(), n)),
        None => None,
    }
}

/// A byte count below one KiB is shown exactly.
pub proof fn law_small_counts_are_exact(bytes: u64)
    requires
        bytes < 0x400,
    ensures
        byte_text(bytes) == decimal(bytes as nat) + " B"@,
{
}

/// Rounding to the nearest moves a number by half a unit at most.
pub proof fn law_rounding_is_close(n: nat, d: nat)
    requires
        d > 0,
    ensures
        2 * n <= 2 * (rounded(n, d) * d) + d,
        2 * (rounded(n, d) * d) <= 2 * n + d,
{
    let q = n / d;
    let r = n % d;
    assert(n == q * d + r) by (nonlinear_arith)
        requires
            d > 0,
            q == n / d,
            r == n % d,
    ;
    assert((q + 1) * d == q * d + d) by (nonlinear_arith);
    assert(r < d) by (nonlinear_arith)
        requires
            d > 0,
            r == n % d,
    ;
}

/// A number of up to 53 bits needs no rounding to 53 bits.
pub proof fn law_53_bits_are_exact(n: nat)
    requires
        n < 0x20_0000_0000_0000,
    ensures
        rounded_to_53_bits(n) == n,
{
    assert(spacing(n, 1) == 1);
    assert(n / 1 == n && n % 1 == 0);
    assert(rounded(n, 1) == n);
}

/// Where the message and the help fit with room to spare, the bar is exactly as
/// wide as the screen.
pub proof fn law_bar_fills_the_width(width: nat, left: nat, right: nat)
    requires
        left + right < width,
    ensures
        bar_gap(width, left, right) is Some,
        left + bar_gap(width, left, right)->0 + right == width,
{
}

} // verus!
