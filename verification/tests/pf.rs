use zq::net::Endpoint;
use zq::pf::{
    natlook, NatlookReply, PfAddr, PfStateXport, PfiocNatlook, AF_INET, DIOCNATLOOK, IPPROTO_TCP,
    NATLOOK_SIZE, PF_OUT,
};
use zq::pf_rules::{
    is_loaded, lists_rules, load_rules, main_config, unload_rules, write_anchor_rules, LoadAction,
    LoadEvent, Pfctl, RuleLoad, UnloadAction, UnloadEvent,
};

fn end(ip: [u8; 4], port: u16) -> Endpoint {
    Endpoint { ip, port }
}

#[test]
fn the_numbers_are_those_of_the_system() {
    assert_eq!(AF_INET as i32, libc::AF_INET);
    assert_eq!(IPPROTO_TCP as i32, libc::IPPROTO_TCP);
    assert_eq!(DIOCNATLOOK, 0xC000_0000 | (84 << 16) | (0x44 << 8) | 23);
}

#[test]
fn an_endpoint_is_written_with_dots_and_a_colon() {
    assert_eq!(end([127, 0, 0, 1], 8888).to_text(), "127.0.0.1:8888");
    assert_eq!(end([255, 10, 0, 200], 0).to_text(), "255.10.0.200:0");
}

#[test]
fn a_query_is_laid_out_as_the_system_expects() {
    let q = PfiocNatlook::new(end([192, 168, 1, 2], 50000), end([127, 0, 0, 1], 8888));
    let b = q.to_bytes();
    assert_eq!(b.len(), NATLOOK_SIZE);
    assert_eq!(&b[0..4], &[192, 168, 1, 2]);
    assert_eq!(&b[4..16], &[0; 12]);
    assert_eq!(&b[16..20], &[127, 0, 0, 1]);
    assert_eq!(&b[20..64], &[0; 44]);
    assert_eq!(&b[64..68], &[0xc3, 0x50, 0, 0]);
    assert_eq!(&b[68..72], &[0x22, 0xb8, 0, 0]);
    assert_eq!(&b[72..80], &[0; 8]);
    assert_eq!(&b[80..84], &[AF_INET, IPPROTO_TCP, PF_OUT, 0]);
}

#[test]
fn the_answer_is_read_from_its_place() {
    let client = end([192, 168, 1, 2], 50000);
    let listen = end([127, 0, 0, 1], 8888);
    let mut b = PfiocNatlook::new(client, listen).to_bytes();
    b[48..52].copy_from_slice(&[93, 184, 216, 34]);
    b[76..78].copy_from_slice(&443u16.to_be_bytes());
    let query = PfiocNatlook::from_bytes(&b);
    assert_eq!(query.to_bytes(), b);
    assert_eq!(query.destination(), end([93, 184, 216, 34], 443));
    assert_eq!(
        natlook(client, listen, &NatlookReply::Answered { query }),
        Ok(end([93, 184, 216, 34], 443))
    );
    assert_eq!(
        natlook(client, listen, &NatlookReply::Failed { cause: "gone".to_string() }),
        Err("DIOCNATLOOK failed for 192.168.1.2:50000\u{2192}127.0.0.1:8888: gone".to_string())
    );
}

#[test]
fn addresses_and_ports_come_back() {
    assert_eq!(PfAddr::from_ipv4([1, 2, 3, 4]).to_ipv4(), [1, 2, 3, 4]);
    for port in [0u16, 1, 80, 256, 443, 8888, 65535] {
        assert_eq!(PfStateXport::from_port(port).port_value(), port);
    }
}

#[test]
fn references_go_after_the_last_of_their_kind() {
    let base = "scrub-anchor \"com.apple/*\"\nnat-anchor \"com.apple/*\"\nrdr-anchor \"com.apple/*\"\n\
                dummynet-anchor \"com.apple/*\"\nanchor \"com.apple/*\"\nanchor \"other\"\n\
                load anchor \"com.apple\" from \"/etc/pf.anchors/com.apple\"\n";
    let expected = "scrub-anchor \"com.apple/*\"\nnat-anchor \"com.apple/*\"\n\
                    rdr-anchor \"com.apple/*\"\nrdr-anchor \"zq\"\n\
                    dummynet-anchor \"com.apple/*\"\nanchor \"com.apple/*\"\nanchor \"other\"\n\
                    anchor \"zq\"\nload anchor \"com.apple\" from \"/etc/pf.anchors/com.apple\"\n";
    assert_eq!(main_config(base), expected);
    assert_eq!(
        main_config("rdr-anchor \"a\"\nrdr-anchor \"b\"\nanchor \"c\"\nanchor \"d\"\n"),
        "rdr-anchor \"a\"\nrdr-anchor \"b\"\nrdr-anchor \"zq\"\n\
         anchor \"c\"\nanchor \"d\"\nanchor \"zq\"\n"
    );
    // Kinds that alternate: each reference waits for the last of its own.
    assert_eq!(
        main_config("rdr-anchor \"a\"\nanchor \"b\"\nrdr-anchor \"c\"\npass all\n"),
        "rdr-anchor \"a\"\nanchor \"b\"\nanchor \"zq\"\nrdr-anchor \"c\"\n\
         rdr-anchor \"zq\"\npass all\n"
    );
}

#[test]
fn references_without_a_place_go_to_the_end() {
    assert_eq!(main_config(""), "rdr-anchor \"zq\"\nanchor \"zq\"\n");
    assert_eq!(main_config("pass all"), "pass all\nrdr-anchor \"zq\"\nanchor \"zq\"\n");
    // The last line is an anchor: its reference follows it, the other comes last.
    assert_eq!(
        main_config("anchor \"a\"\r\n"),
        "anchor \"a\"\nanchor \"zq\"\nrdr-anchor \"zq\"\n"
    );
    assert_eq!(
        main_config("  rdr-anchor \"a\""),
        "  rdr-anchor \"a\"\nrdr-anchor \"zq\"\nanchor \"zq\"\n"
    );
    assert_eq!(
        main_config("anchor \"a\"\nrdr-anchor \"b\"\n"),
        "anchor \"a\"\nanchor \"zq\"\nrdr-anchor \"b\"\nrdr-anchor \"zq\"\n"
    );
}

#[test]
fn the_anchor_redirects_web_traffic() {
    assert_eq!(
        write_anchor_rules(8888, 501),
        "rdr pass on lo0 proto tcp from any to !127.0.0.1 port {80, 443} -> 127.0.0.1 port 8888\n\
         pass out route-to (lo0 127.0.0.1) proto tcp from any to any port {80, 443} keep state user != 501\n"
    );
}

#[test]
fn the_control_program_is_called_with_its_arguments() {
    assert_eq!(Pfctl::LoadMain.args(), vec!["-f", "/tmp/zq-pf.conf"]);
    assert_eq!(Pfctl::LoadAnchor.args(), vec!["-a", "zq", "-f", "-"]);
    assert_eq!(Pfctl::Enable.args(), vec!["-e"]);
    assert_eq!(Pfctl::Flush.args(), vec!["-a", "zq", "-F", "all"]);
    assert_eq!(Pfctl::Restore.args(), vec!["-f", "/etc/pf.conf"]);
    assert_eq!(Pfctl::Show.args(), vec!["-a", "zq", "-sr"]);
    for c in [
        Pfctl::LoadMain,
        Pfctl::LoadAnchor,
        Pfctl::Enable,
        Pfctl::Flush,
        Pfctl::Restore,
        Pfctl::Show,
    ] {
        assert_eq!(c.command_line(), format!("pfctl {}", c.args().join(" ")));
    }
}

fn ran(success: bool, stderr: &str) -> LoadEvent {
    LoadEvent::Ran { success, stderr: stderr.as_bytes().to_vec() }
}

fn load_fail(action: LoadAction) -> String {
    match action {
        LoadAction::Fail { error } => error.message(),
        other => panic!("expected a failure, got {:?}", other),
    }
}

/// A load that has succeeded so far, `steps` events on.
fn load_at(steps: usize) -> RuleLoad {
    let (mut l, _) = load_rules(8888, 501);
    let events = vec![
        LoadEvent::ConfigRead { text: "pass all\n".to_string() },
        LoadEvent::TempWritten,
        ran(true, ""),
        ran(true, ""),
    ];
    for e in events.into_iter().take(steps) {
        l.step(e);
    }
    l
}

#[test]
fn rules_are_loaded_step_by_step() {
    let (mut l, first) = load_rules(8888, 501);
    assert!(matches!(first, LoadAction::ReadConfig));
    let s = l.step(LoadEvent::ConfigRead { text: "pass all\n".to_string() });
    assert!(!s.remove_temp);
    assert!(matches!(
        s.action,
        LoadAction::WriteTemp { text } if text == "pass all\nrdr-anchor \"zq\"\nanchor \"zq\"\n"
    ));
    let s = l.step(LoadEvent::TempWritten);
    assert!(matches!(s.action, LoadAction::Run { command: Pfctl::LoadMain }));
    let s = l.step(ran(true, ""));
    assert!(s.remove_temp);
    assert!(matches!(
        s.action,
        LoadAction::RunWith { command: Pfctl::LoadAnchor, input }
            if input == write_anchor_rules(8888, 501)
    ));
    let s = l.step(ran(true, ""));
    assert!(!s.remove_temp);
    assert!(matches!(s.action, LoadAction::Run { command: Pfctl::Enable }));
    assert!(matches!(l.step(ran(true, "")).action, LoadAction::Done));
    assert!(matches!(l.step(ran(true, "")).action, LoadAction::Wait));
}

#[test]
fn a_filter_that_is_on_already_is_fine() {
    assert!(matches!(
        load_at(4).step(ran(false, "pfctl: pf already enabled\n")).action,
        LoadAction::Done
    ));
    assert!(matches!(
        load_at(4).judge_run(false, "pf already enabled".to_string()),
        LoadAction::Done
    ));
}

#[test]
fn every_failure_to_load_has_its_words() {
    assert_eq!(
        load_fail(load_at(0).step(LoadEvent::ConfigUnreadable).action),
        "failed to read /etc/pf.conf"
    );
    assert_eq!(
        load_fail(load_at(1).step(LoadEvent::TempFailed).action),
        "failed to write temp pf config"
    );
    let s = load_at(2).step(LoadEvent::NotRun);
    assert!(!s.remove_temp);
    assert_eq!(load_fail(s.action), "failed to run pfctl -f for main config");
    let s = load_at(2).step(ran(false, "syntax error"));
    assert!(s.remove_temp);
    assert_eq!(load_fail(s.action), "pfctl -f /tmp/zq-pf.conf failed: syntax error");
    assert_eq!(
        load_fail(load_at(3).step(LoadEvent::NotRun).action),
        "failed to spawn pfctl for anchor rules"
    );
    assert_eq!(
        load_fail(load_at(3).step(LoadEvent::InputFailed).action),
        "failed to write anchor rules to pfctl"
    );
    assert_eq!(
        load_fail(load_at(3).step(LoadEvent::WaitFailed).action),
        "failed to wait for pfctl"
    );
    assert_eq!(
        load_fail(load_at(3).step(ran(false, "bad\n")).action),
        "pfctl -a zq -f - failed: bad\n"
    );
    assert_eq!(
        load_fail(load_at(4).step(LoadEvent::NotRun).action),
        "failed to run pfctl -e"
    );
    assert_eq!(
        load_fail(load_at(4).step(ran(false, "denied")).action),
        "pfctl -e failed: denied"
    );
}

fn unload_ran(success: bool, stderr: &str) -> UnloadEvent {
    UnloadEvent::Ran { success, stderr: stderr.as_bytes().to_vec() }
}

fn unload_fail(action: UnloadAction) -> String {
    match action {
        UnloadAction::Fail { error } => error.message(),
        other => panic!("expected a failure, got {:?}", other),
    }
}

#[test]
fn rules_are_unloaded_and_the_system_restored() {
    let (mut u, first) = unload_rules();
    assert!(matches!(first, UnloadAction::Run { command: Pfctl::Flush }));
    assert!(matches!(
        u.step(unload_ran(true, "")),
        UnloadAction::Run { command: Pfctl::Restore }
    ));
    assert!(matches!(u.step(unload_ran(true, "")), UnloadAction::Done { warning: None }));
    assert!(matches!(u.step(UnloadEvent::NotRun), UnloadAction::Wait));

    let (mut u, _) = unload_rules();
    assert!(matches!(
        u.step(unload_ran(false, "pfctl: No such anchor")),
        UnloadAction::Run { command: Pfctl::Restore }
    ));
    assert!(matches!(
        u.step(unload_ran(false, "busy")),
        UnloadAction::Done { warning: Some(w) }
            if w == "warning: pfctl -f /etc/pf.conf returned: busy"
    ));
}

#[test]
fn every_failure_to_unload_has_its_words() {
    assert_eq!(
        unload_fail(unload_rules().0.step(UnloadEvent::NotRun)),
        "failed to run pfctl -a zq -F all"
    );
    assert_eq!(
        unload_fail(unload_rules().0.step(unload_ran(false, "denied"))),
        "pfctl -a zq -F all failed: denied"
    );
    let mut u = unload_rules().0;
    u.step(unload_ran(true, ""));
    assert_eq!(unload_fail(u.step(UnloadEvent::NotRun)), "failed to restore /etc/pf.conf");
}

#[test]
fn rules_are_loaded_where_any_line_shows_one() {
    assert!(!is_loaded(None));
    assert!(!is_loaded(Some(b"")));
    assert!(!is_loaded(Some(b"\n  \n\t\r\n")));
    assert!(is_loaded(Some(b"\n pass all\n")));
    assert!(is_loaded(Some(b"\xff")));
    assert!(lists_rules("x"));
    assert!(!lists_rules(" \u{3000}\n"));
}
