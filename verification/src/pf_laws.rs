//! What holds of the packet filter's rules and queries, and of the endpoints in
//! them.

use vstd::prelude::*;

use crate::net::EndpointView;
use crate::pf::{natlook_destination, natlook_failure, natlook_query};
use crate::pf_rules::{
    after_run, after_unload_run, anchor_rules, drops_temp, extended, holds_rules, joined,
    lemma_last_line, load_first, load_next, main_rules, shows_rules, unload_first, unload_next,
    LoadActionView, LoadEvent, LoadPhase, PfErrorView, Pfctl, Reference, RuleLoadView,
    UnloadActionView, UnloadEvent, UnloadPhase, ANCHOR_LINE, RDR_LINE,
};
use crate::proxy::listen_addr;
use crate::text::{
    after_last, contains_text, cut, decimal, law_decimal_reads_back, law_lines_concatenate,
    lemma_position, lemma_position_at, lines_of, lossy_text, position, trimmed, unsigned,
    white_space, without_cr,
};
use crate::text_laws::{
    digits, law_decimal_is_made_of_digits, law_every_text_can_be_trimmed, law_line_endings,
    law_tail_after_last,
};

verus! {

/// A number in decimal holds none of the characters that separate numbers.
proof fn lemma_decimal_holds_no_mark(n: nat)
    ensures
        forall|i: int|
            0 <= i < decimal(n).len() ==> {
                let c = #[trigger] decimal(n)[i];
                c != '.' && c != ':' && c != ' ' && c != '\n' && c != '\r' && c != ','
            },
{
    law_decimal_is_made_of_digits(n);
    reveal_strlit("0123456789");
    assert forall|i: int| 0 <= i < decimal(n).len() implies {
        let c = #[trigger] decimal(n)[i];
        c != '.' && c != ':' && c != ' ' && c != '\n' && c != '\r' && c != ','
    } by {
        assert(digits().contains(decimal(n)[i]));
    }
}

/// What stands before and after the first mark.
proof fn lemma_cut(a: Seq<char>, c: char, b: Seq<char>)
    requires
        forall|i: int| 0 <= i < a.len() ==> a[i] != c,
    ensures
        cut(a + seq![c] + b, c) == Some((a, b)),
{
    let s = a + seq![c] + b;
    lemma_position_at(s, c, a.len() as int);
    assert(s.subrange(0, a.len() as int) =~= a);
    assert(s.subrange(a.len() as int + 1, s.len() as int) =~= b);
}

/// An endpoint's text reads back: cut at the dots and at the colon, it gives the
/// four bytes of the address and the port in decimal.
pub proof fn law_endpoint_reads_back(e: EndpointView)
    requires
        e.ip.len() == 4,
    ensures
        ({
            let text = e.text();
            let (a, after_a) = cut(text, '.')->0;
            let (b, after_b) = cut(after_a, '.')->0;
            let (c, after_c) = cut(after_b, '.')->0;
            let (d, port) = cut(after_c, ':')->0;
            &&& cut(text, '.') is Some
            &&& cut(after_a, '.') is Some
            &&& cut(after_b, '.') is Some
            &&& cut(after_c, ':') is Some
            &&& a == decimal(e.ip[0] as nat)
            &&& b == decimal(e.ip[1] as nat)
            &&& c == decimal(e.ip[2] as nat)
            &&& d == decimal(e.ip[3] as nat)
            &&& port == decimal(e.port as nat)
        }),
{
    reveal_strlit(".");
    reveal_strlit(":");
    let a = decimal(e.ip[0] as nat);
    let b = decimal(e.ip[1] as nat);
    let c = decimal(e.ip[2] as nat);
    let d = decimal(e.ip[3] as nat);
    let p = decimal(e.port as nat);
    lemma_decimal_holds_no_mark(e.ip[0] as nat);
    lemma_decimal_holds_no_mark(e.ip[1] as nat);
    lemma_decimal_holds_no_mark(e.ip[2] as nat);
    lemma_decimal_holds_no_mark(e.ip[3] as nat);
    let r3 = d + seq![':'] + p;
    let r2 = c + seq!['.'] + r3;
    let r1 = b + seq!['.'] + r2;
    assert(e.text() =~= a + seq!['.'] + r1);
    lemma_cut(a, '.', r1);
    lemma_cut(b, '.', r2);
    lemma_cut(c, '.', r3);
    lemma_cut(d, ':', p);
}

/// Different endpoints have different texts.
pub proof fn law_endpoints_are_told_apart(e: EndpointView, f: EndpointView)
    requires
        e.ip.len() == 4,
        f.ip.len() == 4,
        e.text() == f.text(),
    ensures
        e == f,
{
    law_endpoint_reads_back(e);
    law_endpoint_reads_back(f);
    crate::text_laws::law_decimal_tells_numbers_apart(e.ip[0] as nat, f.ip[0] as nat);
    crate::text_laws::law_decimal_tells_numbers_apart(e.ip[1] as nat, f.ip[1] as nat);
    crate::text_laws::law_decimal_tells_numbers_apart(e.ip[2] as nat, f.ip[2] as nat);
    crate::text_laws::law_decimal_tells_numbers_apart(e.ip[3] as nat, f.ip[3] as nat);
    crate::text_laws::law_decimal_tells_numbers_apart(e.port as nat, f.port as nat);
    assert(e.ip =~= f.ip);
}

/// A query holds the two ends of the connection where the system looks for them,
/// ports with the more significant byte first, the kind of connection at its end,
/// and zeros everywhere else.
pub proof fn law_query_layout(client: EndpointView, listen: EndpointView)
    requires
        client.ip.len() == 4,
        listen.ip.len() == 4,
    ensures
        ({
            let q = natlook_query(client, listen);
            &&& q.len() == 84
            &&& q.subrange(0, 4) == client.ip
            &&& q.subrange(16, 20) == listen.ip
            &&& q[64] * 256 + q[65] == client.port
            &&& q[68] * 256 + q[69] == listen.port
            &&& q[80] == 2 && q[81] == 6 && q[82] == 2
            &&& forall|i: int|
                4 <= i < 16 || 20 <= i < 64 || i == 66 || i == 67 || 70 <= i < 80 || i == 83
                    ==> #[trigger] q[i] == 0
        }),
{
    let q = natlook_query(client, listen);
    assert(q.subrange(0, 4) =~= client.ip);
    assert(q.subrange(16, 20) =~= listen.ip);
}

/// The destination is read where the system puts it: the address at byte 48, and
/// the port at byte 76 with the more significant byte first.
pub proof fn law_destination_is_read_from_its_place(data: Seq<u8>)
    requires
        data.len() == 84,
    ensures
        natlook_destination(data).ip == seq![data[48], data[49], data[50], data[51]],
        natlook_destination(data).port == data[76] * 256 + data[77],
{
    assert(data.subrange(48, 52) =~= seq![data[48], data[49], data[50], data[51]]);
    lemma_two_bytes(data[76], data[77]);
}

proof fn lemma_two_bytes(hi: u8, lo: u8)
    ensures
        0 <= hi * 256 + lo <= u16::MAX,
{
}

/// A failed query is reported with both ends and the cause.
pub proof fn law_failed_query_names_both_ends(
    client: EndpointView,
    listen: EndpointView,
    cause: Seq<char>,
)
    ensures
        natlook_failure(client, listen, cause) == "DIOCNATLOOK failed for "@ + client.text() + seq![
            '\u{2192}',
        ] + listen.text() + ": "@ + cause,
{
    reveal_strlit("\u{2192}");
    assert("\u{2192}"@ =~= seq!['\u{2192}']);
}

/// The anchor has two rules. The first redirects to the port given, written as the
/// last word of its line, on the address at which the proxy listens. The second
/// leaves out the user given, written likewise. Nothing else in them depends on
/// either.
pub proof fn law_anchor_rules_redirect_to_the_port(port: u16, uid: u32)
    ensures
        ({
            let lines = lines_of(anchor_rules(port, uid));
            &&& lines.len() == 2
            &&& lines[0]
                == "rdr pass on lo0 proto tcp from any to !127.0.0.1 port {80, 443} -> 127.0.0.1 port "@
                + decimal(port as nat)
            &&& after_last(lines[0], ' ') == decimal(port as nat)
            &&& unsigned(after_last(lines[0], ' '), 65535) == Some(port as nat)
            &&& lines[1]
                == "pass out route-to (lo0 127.0.0.1) proto tcp from any to any port {80, 443} keep state user != "@
                + decimal(uid as nat)
            &&& after_last(lines[1], ' ') == decimal(uid as nat)
            &&& unsigned(after_last(lines[1], ' '), 0xffff_ffff) == Some(uid as nat)
        }),
        listen_addr(port) == "127.0.0.1:"@ + after_last(
            lines_of(anchor_rules(port, uid))[0],
            ' ',
        ),
{
    reveal_strlit("\n");
    reveal_strlit(
        "rdr pass on lo0 proto tcp from any to !127.0.0.1 port {80, 443} -> 127.0.0.1 port ",
    );
    reveal_strlit(
        "\npass out route-to (lo0 127.0.0.1) proto tcp from any to any port {80, 443} keep state user != ",
    );
    reveal_strlit(
        "pass out route-to (lo0 127.0.0.1) proto tcp from any to any port {80, 443} keep state user != ",
    );
    let head =
        "rdr pass on lo0 proto tcp from any to !127.0.0.1 port {80, 443} -> 127.0.0.1 port "@;
    let tail =
        "pass out route-to (lo0 127.0.0.1) proto tcp from any to any port {80, 443} keep state user != "@;
    let p = decimal(port as nat);
    let u = decimal(uid as nat);
    let first = head + p;
    let second = tail + u;
    assert("\npass out route-to (lo0 127.0.0.1) proto tcp from any to any port {80, 443} keep state user != "@
        =~= seq!['\n'] + tail);
    assert(anchor_rules(port, uid) =~= first.push('\n') + second.push('\n'));
    lemma_decimal_holds_no_mark(port as nat);
    lemma_decimal_holds_no_mark(uid as nat);
    law_decimal_is_made_of_digits(port as nat);
    law_decimal_is_made_of_digits(uid as nat);
    lemma_head_is_one_line(head, p);
    lemma_head_is_one_line(tail, u);
    law_line_endings(first);
    law_line_endings(second);
    law_lines_concatenate(first.push('\n'), second.push('\n'));
    assert(lines_of(anchor_rules(port, uid)) =~= seq![first, second]);
    assert(head =~= head.drop_last().push(' '));
    assert(tail =~= tail.drop_last().push(' '));
    law_tail_after_last(head.drop_last(), p, ' ');
    law_tail_after_last(tail.drop_last(), u, ' ');
    law_decimal_reads_back(port as nat, 65535);
    law_decimal_reads_back(uid as nat, 0xffff_ffff);
}

proof fn lemma_head_is_one_line(head: Seq<char>, n: Seq<char>)
    requires
        forall|i: int| 0 <= i < head.len() ==> head[i] != '\n',
        n.len() > 0,
        forall|i: int| 0 <= i < n.len() ==> (#[trigger] n[i]) != '\n' && n[i] != '\r',
    ensures
        forall|i: int| 0 <= i < (head + n).len() ==> (head + n)[i] != '\n',
        (head + n).last() != '\r',
{
    let s = head + n;
    assert forall|i: int| 0 <= i < s.len() implies s[i] != '\n' by {
        if i >= head.len() {
            assert(s[i] == n[i - head.len()]);
        }
    }
    assert(s.last() == n[n.len() - 1]);
}

/// Rules for different ports, or for different users, differ.
pub proof fn law_anchor_rules_tell_ports_apart(port: u16, uid: u32, port2: u16, uid2: u32)
    requires
        anchor_rules(port, uid) == anchor_rules(port2, uid2),
    ensures
        port == port2,
        uid == uid2,
{
    law_anchor_rules_redirect_to_the_port(port, uid);
    law_anchor_rules_redirect_to_the_port(port2, uid2);
}

/// A line refers to an anchor's redirection rules where its first characters that
/// are not blank are `rdr-anchor`, and to its filtering rules where they are
/// `anchor` and a blank that something follows.
pub proof fn law_references_are_recognised(line: Seq<char>)
    ensures
        ({
            let t = trimmed(line);
            &&& Reference::Rdr.marks(line) <==> t.len() >= 10 && t.take(10) == "rdr-anchor"@
            &&& Reference::Anchor.marks(line) <==> t.len() >= 7 && t.take(7) == "anchor "@
        }),
        Reference::Rdr.text() == "rdr-anchor \"zq\""@,
        Reference::Anchor.text() == "anchor \"zq\""@,
{
    reveal_strlit("rdr-anchor");
    reveal_strlit("anchor ");
    let t = trimmed(line);
    if t.len() >= 10 {
        assert(t.subrange(0, 10) =~= t.take(10));
    }
    if t.len() >= 7 {
        assert(t.subrange(0, 7) =~= t.take(7));
    }
}

/// Where no line refers to an anchor in one of the two ways, this anchor's
/// reference of that kind comes last of all; where there is neither, the one to
/// the redirection rules comes first of the two.
pub proof fn law_references_without_kin_come_last(lines: Seq<Seq<char>>)
    ensures
        ({
            let no_rdr = forall|j: int|
                0 <= j < lines.len() ==> !Reference::Rdr.marks(#[trigger] lines[j]);
            let no_anchor = forall|j: int|
                0 <= j < lines.len() ==> !Reference::Anchor.marks(#[trigger] lines[j]);
            &&& no_rdr && no_anchor ==> extended(lines) == lines.push(RDR_LINE@).push(ANCHOR_LINE@)
            &&& no_rdr && !no_anchor ==> extended(lines).last() == RDR_LINE@
            &&& no_anchor ==> extended(lines).last() == ANCHOR_LINE@
        }),
{
    lemma_last_line(Reference::Rdr, lines);
    lemma_last_line(Reference::Anchor, lines);
    let r = Reference::Rdr.last_line(lines) as int;
    let a = Reference::Anchor.last_line(lines) as int;
    let no_rdr = forall|j: int|
        0 <= j < lines.len() ==> !Reference::Rdr.marks(#[trigger] lines[j]);
    let no_anchor = forall|j: int|
        0 <= j < lines.len() ==> !Reference::Anchor.marks(#[trigger] lines[j]);
    if r > 0 {
        assert(Reference::Rdr.marks(lines[r - 1]));
    }
    if a > 0 {
        assert(Reference::Anchor.marks(lines[a - 1]));
    }
    assert(no_rdr <==> r == 0);
    assert(no_anchor <==> a == 0);
    if no_rdr && no_anchor {
        assert(extended(lines) =~= lines.push(RDR_LINE@).push(ANCHOR_LINE@));
    }
}

/// Lines are put together each with a line feed, in their order, and the main
/// rules are the extended lines put together so.
pub proof fn law_lines_are_put_together(
    a: Seq<Seq<char>>,
    b: Seq<Seq<char>>,
    line: Seq<char>,
    base: Seq<char>,
)
    ensures
        joined(Seq::empty()) == Seq::<char>::empty(),
        joined(seq![line]) == line.push('\n'),
        joined(a + b) == joined(a) + joined(b),
        main_rules(base) == joined(extended(lines_of(base))),
    decreases b.len(),
{
    reveal_with_fuel(joined, 3);
    assert(seq![line].drop_last() =~= Seq::<Seq<char>>::empty());
    assert(joined(seq![line]) =~= line.push('\n'));
    if b.len() == 0 {
        assert(a + b =~= a);
        assert(joined(a) + joined(b) =~= joined(a));
    } else {
        law_lines_are_put_together(a, b.drop_last(), line, base);
        assert((a + b).drop_last() =~= a + b.drop_last());
        assert((a + b).last() == b.last());
        assert(joined(a) + joined(b.drop_last()) + b.last().push('\n') =~= joined(a) + joined(b));
    }
}

/// The loading of rules takes its steps in order: the system's rules, extended,
/// are written down and loaded, then the anchor's for the port and the user given,
/// and then the packet filter is turned on.
pub proof fn law_loading_takes_its_course(
    port: u16,
    excluded_uid: u32,
    text: String,
    stderr: Seq<char>,
)
    ensures
        ({
            let at = |phase: LoadPhase| RuleLoadView { port, excluded_uid, phase };
            &&& load_next(at(LoadPhase::Reading), LoadEvent::ConfigRead { text }) == (
                LoadPhase::Writing,
                LoadActionView::WriteTemp { text: joined(extended(lines_of(text@))) },
            )
            &&& load_next(at(LoadPhase::Writing), LoadEvent::TempWritten) == (
                LoadPhase::Main,
                LoadActionView::Run { command: Pfctl::LoadMain },
            )
            &&& after_run(at(LoadPhase::Main), true, stderr) == (
                LoadPhase::Anchor,
                LoadActionView::RunWith {
                    command: Pfctl::LoadAnchor,
                    input: anchor_rules(port, excluded_uid),
                },
            )
            &&& after_run(at(LoadPhase::Anchor), true, stderr) == (
                LoadPhase::Enabling,
                LoadActionView::Run { command: Pfctl::Enable },
            )
            &&& after_run(at(LoadPhase::Enabling), true, stderr) == (
                LoadPhase::Over,
                LoadActionView::Done,
            )
        }),
{
}

/// The control program's word counts as it was heard: the outcome of a run is
/// judged by its success and by what it reported, and the file goes exactly when
/// the control program has run on it.
pub proof fn law_runs_are_judged(l: RuleLoadView, success: bool, stderr: Vec<u8>)
    ensures
        load_next(l, LoadEvent::Ran { success, stderr }) == after_run(
            l,
            success,
            lossy_text(stderr@),
        ),
        drops_temp(l, LoadEvent::Ran { success, stderr }) <==> l.phase == LoadPhase::Main,
{
}

/// Nothing but a run of the control program lets the file go.
pub proof fn law_file_stays_until_a_run(l: RuleLoadView, event: LoadEvent)
    requires
        !(event is Ran),
    ensures
        !drops_temp(l, event),
{
}

/// A refusal ends the loading and is reported with the call refused and what the
/// control program said; but a packet filter that was on already is on.
pub proof fn law_refusals_end_the_loading(l: RuleLoadView, stderr: Seq<char>)
    ensures
        l.phase == LoadPhase::Main ==> after_run(l, false, stderr) == (
            LoadPhase::Over,
            LoadActionView::Fail {
                error: PfErrorView::Refused { command: Pfctl::LoadMain, stderr },
            },
        ),
        l.phase == LoadPhase::Anchor ==> after_run(l, false, stderr) == (
            LoadPhase::Over,
            LoadActionView::Fail {
                error: PfErrorView::Refused { command: Pfctl::LoadAnchor, stderr },
            },
        ),
        l.phase == LoadPhase::Enabling && contains_text(stderr, "already enabled"@) ==> after_run(
            l,
            false,
            stderr,
        ) == (LoadPhase::Over, LoadActionView::Done),
        l.phase == LoadPhase::Enabling && !contains_text(stderr, "already enabled"@) ==> after_run(
            l,
            false,
            stderr,
        ) == (
            LoadPhase::Over,
            LoadActionView::Fail {
                error: PfErrorView::Refused { command: Pfctl::Enable, stderr },
            },
        ),
        (PfErrorView::Refused { command: Pfctl::LoadMain, stderr }).words()
            == "pfctl -f /tmp/zq-pf.conf"@ + " failed: "@ + stderr,
        (PfErrorView::Refused { command: Pfctl::LoadAnchor, stderr }).words()
            == "pfctl -a zq -f -"@ + " failed: "@ + stderr,
        (PfErrorView::Refused { command: Pfctl::Enable, stderr }).words() == "pfctl -e"@
            + " failed: "@ + stderr,
        (PfErrorView::Refused { command: Pfctl::Flush, stderr }).words() == "pfctl -a zq -F all"@
            + " failed: "@ + stderr,
{
}

/// Every other mishap ends the loading with the error that names it, where the
/// step that it belongs to is under way. What does not belong changes nothing.
pub proof fn law_mishaps_end_the_loading(l: RuleLoadView, event: LoadEvent)
    requires
        !(event is Ran),
    ensures
        ({
            let (phase, action) = load_next(l, event);
            &&& l.phase is Reading && event is ConfigUnreadable ==> action == (
            LoadActionView::Fail { error: PfErrorView::ReadConfig })
            &&& l.phase is Writing && event is TempFailed ==> action == (LoadActionView::Fail {
                error: PfErrorView::WriteTemp,
            })
            &&& l.phase is Main && event is NotRun ==> action == (LoadActionView::Fail {
                error: PfErrorView::RunMain,
            })
            &&& l.phase is Anchor && event is NotRun ==> action == (LoadActionView::Fail {
                error: PfErrorView::SpawnAnchor,
            })
            &&& l.phase is Anchor && event is InputFailed ==> action == (LoadActionView::Fail {
                error: PfErrorView::WriteAnchor,
            })
            &&& l.phase is Anchor && event is WaitFailed ==> action == (LoadActionView::Fail {
                error: PfErrorView::WaitAnchor,
            })
            &&& l.phase is Enabling && event is NotRun ==> action == (LoadActionView::Fail {
                error: PfErrorView::RunEnable,
            })
            &&& action is Fail ==> phase == LoadPhase::Over
            &&& action is Wait ==> phase == l.phase
            &&& action is Wait <==> {
                ||| l.phase is Reading && !(event is ConfigRead) && !(event is ConfigUnreadable)
                ||| l.phase is Writing && !(event is TempWritten) && !(event is TempFailed)
                ||| l.phase is Main && !(event is NotRun)
                ||| l.phase is Anchor && !(event is NotRun) && !(event is InputFailed) && !(
                event is WaitFailed)
                ||| l.phase is Enabling && !(event is NotRun)
                ||| l.phase is Over
            }
        }),
{
}

/// A run that nobody waits for changes nothing.
pub proof fn law_stray_runs_change_nothing(l: RuleLoadView, success: bool, stderr: Seq<char>)
    requires
        l.phase is Reading || l.phase is Writing || l.phase is Over,
    ensures
        after_run(l, success, stderr) == (l.phase, LoadActionView::Wait),
{
}

/// The unloading of rules flushes the anchor and then restores the system's rules.
/// A refused flush ends it, unless there was no such anchor; a refused restoration
/// is a warning that carries what the control program said.
pub proof fn law_unloading_takes_its_course(stderr: Seq<char>, success: bool)
    ensures
        after_unload_run(UnloadPhase::Flushing, true, stderr) == (
            UnloadPhase::Restoring,
            UnloadActionView::Run { command: Pfctl::Restore },
        ),
        !contains_text(stderr, "No such"@) ==> after_unload_run(
            UnloadPhase::Flushing,
            false,
            stderr,
        ) == (
            UnloadPhase::Over,
            UnloadActionView::Fail {
                error: PfErrorView::Refused { command: Pfctl::Flush, stderr },
            },
        ),
        after_unload_run(UnloadPhase::Restoring, true, stderr) == (
            UnloadPhase::Over,
            UnloadActionView::Done { warning: None },
        ),
        after_unload_run(UnloadPhase::Restoring, false, stderr) == (
            UnloadPhase::Over,
            UnloadActionView::Done {
                warning: Some("warning: pfctl -f /etc/pf.conf returned: "@ + stderr),
            },
        ),
        after_unload_run(UnloadPhase::Over, success, stderr) == (
            UnloadPhase::Over,
            UnloadActionView::Wait,
        ),
{
}

/// The unloading judges a run by its success and by what was reported, and a
/// control program that cannot be run ends it.
pub proof fn law_unloading_needs_the_control_program(
    phase: UnloadPhase,
    success: bool,
    stderr: Vec<u8>,
)
    ensures
        unload_next(phase, UnloadEvent::Ran { success, stderr }) == after_unload_run(
            phase,
            success,
            lossy_text(stderr@),
        ),
        unload_next(UnloadPhase::Flushing, UnloadEvent::NotRun) == (
            UnloadPhase::Over,
            UnloadActionView::Fail { error: PfErrorView::RunFlush },
        ),
        unload_next(UnloadPhase::Restoring, UnloadEvent::NotRun) == (
            UnloadPhase::Over,
            UnloadActionView::Fail { error: PfErrorView::RunRestore },
        ),
        unload_next(UnloadPhase::Over, UnloadEvent::NotRun) == (
            UnloadPhase::Over,
            UnloadActionView::Wait,
        ),
{
}

/// Rules are shown exactly where something that is not blank is.
pub proof fn law_rules_are_shown_where_anything_is(text: Seq<char>)
    ensures
        shows_rules(text) <==> exists|k: int| 0 <= k < text.len() && !white_space(#[trigger] text[k]),
{
    lemma_shows_rules(text);
}

proof fn lemma_shows_rules(text: Seq<char>)
    ensures
        shows_rules(text) <==> has_unblank(text),
    decreases text.len(),
{
    let lines = lines_of(text);
    if text.len() > 0 {
        lemma_position(text, '\n');
        let k = position(text, '\n') as int;
        if k < text.len() {
            let head = text.subrange(0, k);
            let first = without_cr(head);
            let rest = text.subrange(k + 1, text.len() as int);
            lemma_shows_rules(rest);
            law_every_text_can_be_trimmed(first);
            assert(lines =~= seq![first] + lines_of(rest));
            assert(lines[0] == first);
            if has_unblank(text) {
                let i = choose|i: int| 0 <= i < text.len() && !white_space(#[trigger] text[i]);
                if i < k {
                    assert(head[i] == text[i]);
                    assert(i < first.len()) by {
                        if first.len() < head.len() {
                            assert(head.last() == '\r');
                        }
                    }
                    assert(first[i] == text[i]);
                    assert(has_unblank(first));
                    assert(trimmed(lines[0]).len() > 0);
                } else if i > k {
                    assert(rest[i - k - 1] == text[i]);
                    assert(has_unblank(rest));
                    let j = choose|j: int|
                        0 <= j < lines_of(rest).len() && trimmed(
                            #[trigger] lines_of(rest)[j],
                        ).len() > 0;
                    assert(lines[j + 1] == lines_of(rest)[j]);
                    assert(trimmed(lines[j + 1]).len() > 0);
                }
                assert(shows_rules(text));
            }
            if shows_rules(text) {
                let j = choose|j: int| 0 <= j < lines.len() && trimmed(#[trigger] lines[j]).len() > 0;
                if j == 0 {
                    let i = choose|i: int| 0 <= i < first.len() && !white_space(#[trigger] first[i]);
                    assert(text[i] == first[i]);
                } else {
                    assert(lines[j] == lines_of(rest)[j - 1]);
                    assert(shows_rules(rest));
                    let i = choose|i: int| 0 <= i < rest.len() && !white_space(#[trigger] rest[i]);
                    assert(text[i + k + 1] == rest[i]);
                }
                assert(has_unblank(text));
            }
        } else {
            assert(lines =~= seq![text]);
            law_every_text_can_be_trimmed(text);
            if has_unblank(text) {
                assert(trimmed(lines[0]).len() > 0);
            }
        }
    }
}

/// The anchor holds rules where the control program shows something that is not
/// blank, and not where it cannot be run.
pub proof fn law_anchor_holds_what_is_shown(data: Seq<u8>)
    ensures
        holds_rules(Some(data)) <==> exists|k: int|
            0 <= k < lossy_text(data).len() && !white_space(#[trigger] lossy_text(data)[k]),
        !holds_rules(None),
{
    law_rules_are_shown_where_anything_is(lossy_text(data));
}

/// Something in the text is not blank.
spec fn has_unblank(text: Seq<char>) -> bool {
    exists|k: int| 0 <= k < text.len() && !white_space(#[trigger] text[k])
}

/// The loading begins with the system's rules, and in the end loads the rules for
/// the port and the user that were given; the unloading begins with the anchor.
pub proof fn law_beginnings_lead_to_the_rules(port: u16, excluded_uid: u32, stderr: Seq<char>)
    ensures
        load_first(port, excluded_uid).1 == LoadActionView::ReadConfig,
        load_first(port, excluded_uid).0.phase == LoadPhase::Reading,
        after_run(
            RuleLoadView { phase: LoadPhase::Main, ..load_first(port, excluded_uid).0 },
            true,
            stderr,
        ).1 == (LoadActionView::RunWith {
            command: Pfctl::LoadAnchor,
            input: anchor_rules(port, excluded_uid),
        }),
        unload_first().1 == (UnloadActionView::Run { command: Pfctl::Flush }),
        unload_first().0 == UnloadPhase::Flushing,
{
}

/// Words after one another, each behind a blank.
pub open spec fn spaced(words: Seq<Seq<char>>) -> Seq<char>
    decreases words.len(),
{
    if words.len() == 0 {
        Seq::empty()
    } else {
        spaced(words.drop_last()) + " "@ + words.last()
    }
}

/// The words of a list of up to four.
proof fn lemma_spaced(words: Seq<Seq<char>>)
    ensures
        words.len() == 1 ==> spaced(words) =~= " "@ + words[0],
        words.len() == 2 ==> spaced(words) =~= " "@ + words[0] + " "@ + words[1],
        words.len() == 3 ==> spaced(words) =~= " "@ + words[0] + " "@ + words[1] + " "@ + words[2],
        words.len() == 4 ==> spaced(words) =~= " "@ + words[0] + " "@ + words[1] + " "@ + words[2]
            + " "@ + words[3],
{
    reveal_with_fuel(spaced, 5);
}

/// A call is typed as the program's name and then the arguments it is made with.
pub proof fn law_calls_are_typed_with_their_arguments(call: Pfctl)
    ensures
        call.typed() == "pfctl"@ + spaced(call.arg_texts()),
        Pfctl::LoadMain.arg_texts() == seq!["-f"@, "/tmp/zq-pf.conf"@],
        Pfctl::LoadAnchor.arg_texts() == seq!["-a"@, "zq"@, "-f"@, "-"@],
        Pfctl::Enable.arg_texts() == seq!["-e"@],
        Pfctl::Flush.arg_texts() == seq!["-a"@, "zq"@, "-F"@, "all"@],
        Pfctl::Restore.arg_texts() == seq!["-f"@, "/etc/pf.conf"@],
        Pfctl::Show.arg_texts() == seq!["-a"@, "zq"@, "-sr"@],
{
    lemma_spaced(call.arg_texts());
    reveal_strlit("pfctl");
    reveal_strlit(" ");
    reveal_strlit("-f");
    reveal_strlit("-a");
    reveal_strlit("zq");
    reveal_strlit("-");
    reveal_strlit("-e");
    reveal_strlit("-F");
    reveal_strlit("all");
    reveal_strlit("-sr");
    reveal_strlit("/etc/pf.conf");
    reveal_strlit("/tmp/zq-pf.conf");
    reveal_strlit("pfctl -f /tmp/zq-pf.conf");
    reveal_strlit("pfctl -a zq -f -");
    reveal_strlit("pfctl -e");
    reveal_strlit("pfctl -a zq -F all");
    reveal_strlit("pfctl -f /etc/pf.conf");
    reveal_strlit("pfctl -a zq -sr");
    assert(call.typed() =~= "pfctl"@ + spaced(call.arg_texts()));
}

/// Each mishap has its own wording.
pub proof fn law_mishaps_are_worded()
    ensures
        PfErrorView::ReadConfig.words() == "failed to read /etc/pf.conf"@,
        PfErrorView::WriteTemp.words() == "failed to write temp pf config"@,
        PfErrorView::RunMain.words() == "failed to run pfctl -f for main config"@,
        PfErrorView::SpawnAnchor.words() == "failed to spawn pfctl for anchor rules"@,
        PfErrorView::WriteAnchor.words() == "failed to write anchor rules to pfctl"@,
        PfErrorView::WaitAnchor.words() == "failed to wait for pfctl"@,
        PfErrorView::RunEnable.words() == "failed to run pfctl -e"@,
        PfErrorView::RunFlush.words() == "failed to run pfctl -a zq -F all"@,
        PfErrorView::RunRestore.words() == "failed to restore /etc/pf.conf"@,
{
}

} // verus!
