//! What holds of the screen: how byte counts are rounded, and where everything
//! that the client knows is shown.

use vstd::prelude::*;

use crate::app::{Focus, Screen};
use crate::proto::{AppView, FlowView, Proto, ProxyStatus, RouteAction};
use crate::text::{decimal, digit_char};
use crate::text_laws::digits;
use crate::ui::{
    app_row, apps_view, bar_gap, bar_spans, byte_text, comma_list, display_width, flow_row,
    flows_view, header_spans, one_decimal, rounded, rounded_to_53_bits, spacing, span_views,
    status_gap, status_spans, total_in, total_out, traffic, Paint, SpanView, TextSpan, Tone, Width,
    HELP,
};

verus! {

/// `t` tenths with one digit after the point.
pub open spec fn tenths(t: nat) -> Seq<char> {
    decimal(t / 10) + seq!['.', digits()[(t % 10) as int]]
}

/// `t` is the whole number nearest to `n / d`, and the even one of two equally near.
pub open spec fn is_nearest(t: nat, n: nat, d: nat) -> bool {
    &&& 2 * (t * d) <= 2 * n + d
    &&& 2 * n <= 2 * (t * d) + d
    &&& 2 * (t * d) == 2 * n + d || 2 * n == 2 * (t * d) + d ==> t % 2 == 0
}

/// A number is rounded to the nearest whole one, ties to the even.
pub proof fn law_rounding_goes_to_the_nearest(n: nat, d: nat)
    requires
        d > 0,
    ensures
        is_nearest(rounded(n, d), n, d),
{
    let q = n / d;
    let r = n % d;
    assert(n == q * d + r) by (nonlinear_arith)
        requires
            d > 0,
            q == n / d,
            r == n % d,
    ;
    assert(r < d) by (nonlinear_arith)
        requires
            d > 0,
            r == n % d,
    ;
    assert((q + 1) * d == q * d + d) by (nonlinear_arith);
}

/// The distances between neighbouring numbers of 53 bits.
pub open spec fn steps() -> Seq<nat> {
    seq![1, 2, 4, 8, 16, 32, 64, 128, 256, 512, 1024, 2048]
}

/// Byte counts of more than 53 bits are rounded to the nearest multiple of the
/// power of two that leaves 53 bits of them.
pub proof fn law_long_counts_are_rounded(bytes: u64)
    ensures
        ({
            let step = spacing(bytes as nat, 1);
            &&& steps().contains(step)
            &&& bytes < step * 0x20_0000_0000_0000
            &&& step > 1 ==> bytes >= step * 0x10_0000_0000_0000
            &&& exists|q: nat|
                is_nearest(q, bytes as nat, step) && rounded_to_53_bits(bytes as nat)
                    == #[trigger] (q * step)
        }),
{
    reveal_with_fuel(spacing, 13);
    let n = bytes as nat;
    let step = spacing(n, 1);
    assert(step == 1 || step == 2 || step == 4 || step == 8 || step == 16 || step == 32 || step
        == 64 || step == 128 || step == 256 || step == 512 || step == 1024 || step == 2048);
    assert(steps()[0] == 1 && steps()[1] == 2 && steps()[2] == 4 && steps()[3] == 8);
    assert(steps()[4] == 16 && steps()[5] == 32 && steps()[6] == 64 && steps()[7] == 128);
    assert(steps()[8] == 256 && steps()[9] == 512 && steps()[10] == 1024 && steps()[11] == 2048);
    assert(steps().contains(step));
    law_rounding_goes_to_the_nearest(n, step);
    assert(rounded_to_53_bits(n) == rounded(n, step) * step);
}

/// A byte count is shown in the largest unit that it reaches, as the nearest tenth
/// of it: exactly below one KiB, and as good as 53 bits allow above.
pub proof fn law_byte_counts_are_shown_in_tenths(bytes: u64)
    ensures
        ({
            let n = rounded_to_53_bits(bytes as nat);
            let text = byte_text(bytes);
            &&& bytes < 0x400 ==> text == decimal(bytes as nat) + " B"@
            &&& 0x400 <= bytes < 0x10_0000 ==> exists|t: nat|
                is_nearest(t, 10 * n, 0x400) && text == #[trigger] tenths(t) + " KiB"@
            &&& 0x10_0000 <= bytes < 0x4000_0000 ==> exists|t: nat|
                is_nearest(t, 10 * n, 0x10_0000) && text == #[trigger] tenths(t) + " MiB"@
            &&& 0x4000_0000 <= bytes ==> exists|t: nat|
                is_nearest(t, 10 * n, 0x4000_0000) && text == #[trigger] tenths(t) + " GiB"@
        }),
{
    let n = rounded_to_53_bits(bytes as nat);
    lemma_tenths(n, 0x400);
    lemma_tenths(n, 0x10_0000);
    lemma_tenths(n, 0x4000_0000);
}

proof fn lemma_tenths(n: nat, unit: nat)
    requires
        unit > 0,
    ensures
        is_nearest(rounded(n * 10, unit), 10 * n, unit),
        one_decimal(n, unit) == tenths(rounded(n * 10, unit)),
{
    let t = rounded(n * 10, unit);
    law_rounding_goes_to_the_nearest(n * 10, unit);
    reveal_strlit(".");
    reveal_strlit("0123456789");
    assert(digits()[(t % 10) as int] == digit_char(t % 10));
    assert("."@ + seq![digit_char(t % 10)] =~= seq!['.', digits()[(t % 10) as int]]);
    assert(one_decimal(n, unit) =~= tenths(t));
}

/// The bytes on all flows are those of each, added up.
pub proof fn law_totals_add_up(a: Seq<FlowView>, b: Seq<FlowView>, f: FlowView)
    ensures
        total_in(a + b) == total_in(a) + total_in(b),
        total_out(a + b) == total_out(a) + total_out(b),
        total_in(seq![f]) == f.bytes_in,
        total_out(seq![f]) == f.bytes_out,
        total_in(Seq::empty()) == 0,
        total_out(Seq::empty()) == 0,
    decreases b.len(),
{
    reveal_with_fuel(total_in, 2);
    reveal_with_fuel(total_out, 2);
    assert(seq![f].drop_last() =~= Seq::<FlowView>::empty());
    if b.len() == 0 {
        assert(a + b =~= a);
    } else {
        law_totals_add_up(a, b.drop_last(), f);
        assert((a + b).drop_last() =~= a + b.drop_last());
        assert((a + b).last() == b.last());
    }
}

/// Numbers are listed in order, in decimal, with a comma between neighbours.
pub proof fn law_commas_stand_between_numbers(a: Seq<u32>, b: Seq<u32>, p: u32)
    requires
        a.len() > 0,
        b.len() > 0,
    ensures
        comma_list(a + b) == comma_list(a) + seq![','] + comma_list(b),
        comma_list(seq![p]) == decimal(p as nat),
        comma_list(Seq::empty()) == Seq::<char>::empty(),
    decreases b.len(),
{
    reveal_strlit(",");
    assert(","@ =~= seq![',']);
    let front = b.drop_last();
    assert((a + b).drop_last() =~= a + front);
    assert((a + b).last() == b.last());
    if front.len() == 0 {
        assert(a + front =~= a);
        assert(b[0] == b.last());
    } else {
        law_commas_stand_between_numbers(a, front, p);
        assert(comma_list(a) + seq![','] + comma_list(front) + ","@ + decimal(b.last() as nat)
            =~= comma_list(a) + seq![','] + (comma_list(front) + ","@ + decimal(
            b.last() as nat,
        )));
    }
}

/// The header shows whether the client is connected, how many applications and
/// flows there are, the bytes on all flows each way, and the proxy's status.
pub proof fn law_header_shows_the_state(s: Screen)
    ensures
        ({
            let h = header_spans(s);
            &&& h.len() == 11
            &&& h[0] == (SpanView { text: " zq"@, tone: Tone::Accent, bold: true })
            &&& h[1].text == " \u{25cf} "@
            &&& h[1].tone == Tone::Good <==> s.connected
            &&& h[1].tone == Tone::Bad <==> !s.connected
            &&& h[2].text == decimal(s.apps.len()) + " apps"@
            &&& h[4].text == decimal(s.flows.len()) + " flows"@
            &&& h[6].text == "\u{2193}"@ + byte_text(total_in(s.flows) as u64)
            &&& h[6].tone == Tone::BytesIn
            &&& h[8].text == "\u{2191}"@ + byte_text(total_out(s.flows) as u64)
            &&& h[8].tone == Tone::BytesOut
            &&& h[2].tone == Tone::Muted && h[4].tone == Tone::Muted
            &&& h[3].text == "  "@ && h[5].text == "  "@ && h[7].text == "  "@ && h[9].text == "  "@
            &&& s.proxy_status == ProxyStatus::Reachable ==> h[10] == (SpanView {
                text: "proxy:up"@,
                tone: Tone::Good,
                bold: false,
            })
            &&& s.proxy_status == ProxyStatus::Unreachable ==> h[10] == (SpanView {
                text: "proxy:down"@,
                tone: Tone::Bad,
                bold: false,
            })
            &&& s.proxy_status == ProxyStatus::Unknown ==> h[10] == (SpanView {
                text: "proxy:?"@,
                tone: Tone::Warn,
                bold: false,
            })
            &&& forall|i: int| 0 < i < 11 ==> !(#[trigger] h[i]).bold
        }),
{
}

/// How a cell on a routing reads.
pub open spec fn reads_as(cell: SpanView, action: RouteAction) -> bool {
    match action {
        RouteAction::Passthrough => cell == (SpanView {
            text: "PASS"@,
            tone: Tone::Muted,
            bold: false,
        }),
        RouteAction::RouteToProxy => cell == (SpanView {
            text: "PROXY"@,
            tone: Tone::Proxy,
            bold: true,
        }),
    }
}

/// The row of an application shows its name, its processes, its flows, its bytes
/// in and out and its routing, in that order.
pub proof fn law_application_rows_show_everything(a: AppView)
    ensures
        ({
            let row = app_row(a);
            &&& row.len() == 6
            &&& row[0].text == a.name
            &&& row[1].text == comma_list(a.pids)
            &&& row[2].text == decimal(a.flow_count as nat)
            &&& row[3].text == byte_text(a.bytes_in) && row[3].tone == Tone::BytesIn
            &&& row[4].text == byte_text(a.bytes_out) && row[4].tone == Tone::BytesOut
            &&& reads_as(row[5], a.routing)
            &&& forall|i: int| 0 <= i < 3 ==> (#[trigger] row[i]).tone == Tone::Plain
            &&& forall|i: int| 0 <= i < 5 ==> !(#[trigger] row[i]).bold
        }),
{
}

/// The row of a flow shows its number, its process, its protocol, where it goes,
/// its bytes in and out and its routing, in that order.
pub proof fn law_flow_rows_show_everything(f: FlowView)
    ensures
        ({
            let row = flow_row(f);
            &&& row.len() == 7
            &&& row[0].text == decimal(f.flow_id as nat)
            &&& row[1].text == f.process_name
            &&& f.proto == Proto::Tcp ==> row[2].text == "TCP"@ && row[2].tone == Tone::Tcp
            &&& f.proto == Proto::Udp ==> row[2].text == "UDP"@ && row[2].tone == Tone::Warn
            &&& row[3].text == f.remote_addr
            &&& row[4].text == byte_text(f.bytes_in) && row[4].tone == Tone::BytesIn
            &&& row[5].text == byte_text(f.bytes_out) && row[5].tone == Tone::BytesOut
            &&& reads_as(row[6], f.routing)
            &&& row[0].tone == Tone::Plain && row[1].tone == Tone::Plain && row[3].tone
                == Tone::Plain
            &&& forall|i: int| 0 <= i < 6 ==> !(#[trigger] row[i]).bold
        }),
{
}

/// Each table has a row for every entry, in order, under the same columns. The one
/// in focus is marked by its border, and its selected row is highlighted, if it has
/// any.
pub proof fn law_tables_show_every_entry(s: Screen)
    ensures
        ({
            let apps = apps_view(s);
            let flows = flows_view(s);
            &&& apps.title == " Applications "@
            &&& flows.title == " Flows "@
            &&& apps.headers == seq!["Name"@, "PIDs"@, "Flows"@, "In"@, "Out"@, "Route"@]
            &&& flows.headers == seq![
                "ID"@,
                "App"@,
                "Proto"@,
                "Remote"@,
                "In"@,
                "Out"@,
                "Route"@,
            ]
            &&& apps.widths == seq![
                Width::Min(16),
                Width::Length(12),
                Width::Length(6),
                Width::Length(10),
                Width::Length(10),
                Width::Length(8),
            ]
            &&& flows.widths == seq![
                Width::Length(6),
                Width::Min(12),
                Width::Length(5),
                Width::Length(22),
                Width::Length(10),
                Width::Length(10),
                Width::Length(8),
            ]
            &&& apps.rows.len() == s.apps.len()
            &&& flows.rows.len() == s.flows.len()
            &&& forall|i: int| 0 <= i < s.apps.len() ==> #[trigger] apps.rows[i] == app_row(s.apps[i])
            &&& forall|i: int|
                0 <= i < s.flows.len() ==> #[trigger] flows.rows[i] == flow_row(s.flows[i])
            &&& apps.border == Tone::Accent <==> s.focus == Focus::Apps
            &&& flows.border == Tone::Accent <==> s.focus == Focus::Flows
            &&& apps.border == Tone::Muted <==> s.focus == Focus::Flows
            &&& flows.border == Tone::Muted <==> s.focus == Focus::Apps
            &&& s.focus == Focus::Apps && s.apps.len() > 0 ==> apps.selected == Some(
                s.selected_app,
            )
            &&& s.focus == Focus::Flows || s.apps.len() == 0 ==> apps.selected is None
            &&& s.focus == Focus::Flows && s.flows.len() > 0 ==> flows.selected == Some(
                s.selected_flow,
            )
            &&& s.focus == Focus::Apps || s.flows.len() == 0 ==> flows.selected is None
        }),
{
}

/// Between the two parts of a bar stands what is left of its width, one blank where
/// nothing is, and there is no bar where they overlap. A part wider than the bar
/// counts as wide as the bar.
pub proof fn law_bar_leaves_a_gap(width: nat, left: nat, right: nat)
    ensures
        left + right < width ==> bar_gap(width, left, right) == Some((width - left - right) as nat),
        left + right == width ==> bar_gap(width, left, right) == Some(1nat),
        left <= width && right <= width && left + right > width ==> bar_gap(width, left, right)
            is None,
        left > width ==> bar_gap(width, left, right) == bar_gap(width, width, right),
        right > width ==> bar_gap(width, left, right) == bar_gap(width, left, width),
{
}

/// The status bar shows the message and the keys, whole, with the gap between them,
/// and is measured so.
pub proof fn law_bar_shows_the_message(s: Screen, gap: nat, width: u16)
    ensures
        ({
            let bar = bar_spans(s.status_message, gap);
            &&& bar.len() == 5
            &&& bar[0].text == " "@
            &&& bar[1].text == s.status_message && bar[1].tone == Tone::Muted
            &&& bar[2].text.len() == gap
            &&& forall|i: int| 0 <= i < gap ==> (#[trigger] bar[2].text[i]) == ' '
            &&& bar[3].text == HELP@ && bar[3].tone == Tone::Muted
            &&& bar[4].text == " "@
            &&& forall|i: int| 0 <= i < 5 ==> !(#[trigger] bar[i]).bold
        }),
        status_gap(s, width) == bar_gap(
            width as nat,
            display_width(" "@) + display_width(s.status_message),
            display_width(HELP@) + 1,
        ),
{
}

/// Spans are shown in order, each with its text, tone and weight.
pub proof fn law_spans_show_their_fields(spans: Seq<TextSpan>, i: int)
    ensures
        span_views(spans).len() == spans.len(),
        0 <= i < spans.len() ==> span_views(spans)[i] == (SpanView {
            text: spans[i].text@,
            tone: spans[i].tone,
            bold: spans[i].bold,
        }),
{
}

/// The tones differ in colour, and each has its own: what is good is green, what
/// is bad red, and what needs care yellow.
pub proof fn law_tones_differ(a: Tone, b: Tone)
    ensures
        a.colour() == b.colour() ==> a == b,
        Tone::Plain.colour() == Paint::Unset,
        Tone::Accent.colour() == Paint::Cyan,
        Tone::Good.colour() == Paint::Green,
        Tone::Warn.colour() == Paint::Yellow,
        Tone::Bad.colour() == Paint::Red,
        Tone::Muted.colour() == Paint::DarkGray,
        Tone::Proxy.colour() == Paint::Magenta,
        Tone::Tcp.colour() == Paint::Blue,
        Tone::Header.colour() == (Paint::Rgb { r: 180, g: 180, b: 220 }),
        Tone::HighlightBg.colour() == (Paint::Rgb { r: 40, g: 40, b: 60 }),
        Tone::BarBg.colour() == (Paint::Rgb { r: 30, g: 30, b: 40 }),
        Tone::BytesIn.colour() == (Paint::Rgb { r: 100, g: 200, b: 100 }),
        Tone::BytesOut.colour() == (Paint::Rgb { r: 100, g: 150, b: 255 }),
{
}

/// The status bar shows the message that is there, with the help behind it, as far
/// apart as the width gives; and nothing where the two do not fit.
pub proof fn law_status_bar_shows_the_message(s: Screen, width: u16)
    ensures
        status_spans(s, width) is Some <==> status_gap(s, width) is Some,
        status_spans(s, width) matches Some(spans) ==> {
            &&& spans.len() == 5
            &&& spans[0].text == " "@
            &&& spans[1].text == s.status_message
            &&& spans[2].text.len() == status_gap(s, width)->0
            &&& spans[3].text == HELP@
            &&& spans[4].text == " "@
        },
{
}

/// What came in and what went out are counted apart, each flow once.
pub proof fn law_traffic_is_counted_apart(s: Screen, f: FlowView)
    ensures
        traffic(Screen { flows: s.flows.push(f), ..s }) == (
            traffic(s).0 + f.bytes_in as nat,
            traffic(s).1 + f.bytes_out as nat,
        ),
        traffic(Screen { flows: Seq::empty(), ..s }) == (0nat, 0nat),
{
    assert(s.flows.push(f).drop_last() =~= s.flows);
}

} // verus!
