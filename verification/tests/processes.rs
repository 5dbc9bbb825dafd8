use zq::net::Endpoint;
use zq::process::{ask_for_files, ask_for_name};
use zq::procinfo::{
    ask_for_owners, cut_at_zero, find_bundle_name, find_pid_for_addr, make_app_id, make_bundle_id,
    make_proc_id, name_socket, owner_in, owner_or_none, signed_pid, CommandOutput,
};

fn out(success: bool, stdout: &str) -> CommandOutput {
    CommandOutput { success, stdout: stdout.as_bytes().to_vec() }
}

#[test]
fn a_socket_is_named_for_the_query() {
    assert_eq!(
        name_socket(Endpoint { ip: [127, 0, 0, 1], port: 59999 }),
        "TCP@127.0.0.1:59999"
    );
}

#[test]
fn test_resolve_process_name_for_init() {
    // PID 1 (launchd) should always exist on macOS.
    assert_eq!(ask_for_name(1), vec!["-p", "1", "-o", "comm="]);
    let name = zq::process::resolve_process_name(Some(&out(true, "/sbin/launchd\n")));
    assert!(!name.is_empty());
    assert_ne!(name, "unknown");
}

#[test]
fn process_test_resolve_process_name_nonexistent() {
    // An absurdly high PID: `ps` prints nothing and reports a failure.
    assert_eq!(ask_for_name(4_000_000_000), vec!["-p", "4000000000", "-o", "comm="]);
    let name = zq::process::resolve_process_name(Some(&out(false, "")));
    assert_eq!(name, "unknown");
}

#[test]
fn process_test_resolve_bundle_id_fallback() {
    // For PID 1 (launchd), there is no .app bundle, so it should
    // fall back to proc.<name>.
    assert_eq!(ask_for_files(1), vec!["-p", "1", "-Fn"]);
    let listing = out(true, "p1\nfcwd\nn/\nftxt\nn/sbin/launchd\n");
    let name = zq::process::resolve_process_name(Some(&out(true, "/sbin/launchd\n")));
    let bid = zq::process::resolve_bundle_id(Some(&listing), &name);
    assert!(bid.starts_with("proc."));
    assert_eq!(bid, "proc.launchd");
}

#[test]
fn procinfo_test_resolve_process_name_nonexistent() {
    // The library has no process of that number and returns zero.
    assert_eq!(signed_pid(4_000_000_000), -294_967_296);
    let name = zq::procinfo::resolve_process_name(0, &[0u8; 256]);
    assert_eq!(name, "unknown");
}

#[test]
fn procinfo_test_resolve_bundle_id_fallback() {
    let path = b"/work/target/debug/deps/zq_daemon-0123\0";
    let name = zq::procinfo::resolve_process_name(14, b"zq_daemon-0123\0");
    let bid = zq::procinfo::resolve_bundle_id(38, path, &name);
    assert!(bid.starts_with("proc."));
    assert_eq!(bid, "proc.zq_daemon-0123");
}

#[test]
fn test_find_pid_nonexistent_addr() {
    // Nobody listens there: `lsof` prints nothing and reports a failure.
    let addr = Endpoint { ip: [127, 0, 0, 1], port: 59999 };
    assert_eq!(
        ask_for_owners(addr),
        vec!["-i", "TCP@127.0.0.1:59999", "-n", "-P", "-F", "p"]
    );
    let result = find_pid_for_addr(Some(&out(false, "")), 1);
    assert!(result.is_none());
}

#[test]
fn large_process_numbers_wrap_around() {
    assert_eq!(signed_pid(0), 0);
    assert_eq!(signed_pid(2_147_483_647), 2_147_483_647);
    assert_eq!(signed_pid(2_147_483_648), -2_147_483_648);
    assert_eq!(signed_pid(4_294_967_295), -1);
}

#[test]
fn a_connection_without_an_owner_goes_under_zero() {
    assert_eq!(owner_or_none(Some(77)), 77);
    assert_eq!(owner_or_none(Some(0)), 0);
    assert_eq!(owner_or_none(None), 0);
}

#[test]
fn the_owner_is_the_first_other_process() {
    let text = "p100\nf5\np200\nn*:80\np300\n";
    assert_eq!(owner_in(text, 1), Some(100));
    assert_eq!(owner_in(text, 100), Some(200));
    assert_eq!(owner_in("p100\np100\n", 100), None);
    assert_eq!(owner_in("px\npp7\np-1\np\np4294967296\np+12\n", 1), Some(12));
    assert_eq!(owner_in("", 1), None);
}

#[test]
fn without_an_answer_there_is_no_owner() {
    assert_eq!(find_pid_for_addr(None, 1), None);
    assert_eq!(find_pid_for_addr(Some(&out(false, "p100\n")), 1), None);
    assert_eq!(find_pid_for_addr(Some(&out(true, "p100\n")), 1), Some(100));
    assert_eq!(
        find_pid_for_addr(
            Some(&CommandOutput { success: true, stdout: b"\xff\np42\n".to_vec() }),
            1
        ),
        Some(42)
    );
}

#[test]
fn a_buffer_is_read_up_to_its_first_zero() {
    assert_eq!(cut_at_zero(b"abc\0def\0"), b"abc");
    assert_eq!(cut_at_zero(b"\0abc"), b"");
    assert_eq!(cut_at_zero(b"abc"), b"abc");
}

#[test]
fn a_process_is_named_by_the_system_or_unknown() {
    assert_eq!(zq::procinfo::resolve_process_name(4, b"curl\0\0\0"), "curl");
    assert_eq!(zq::procinfo::resolve_process_name(1, b"\xffx\0"), "\u{fffd}x");
    assert_eq!(zq::procinfo::resolve_process_name(0, b"curl\0"), "unknown");
    assert_eq!(zq::procinfo::resolve_process_name(-1, b""), "unknown");
}

fn chars(s: &str) -> Vec<char> {
    s.chars().collect()
}

#[test]
fn a_bundle_is_found_in_a_path() {
    let name = |s: &str| find_bundle_name(&chars(s));
    assert_eq!(
        name("/Applications/Safari.app/Contents/MacOS/Safari"),
        Some("Safari".to_string())
    );
    assert_eq!(
        name("/Applications/A.app/Contents/Helper.app/B"),
        Some("A".to_string())
    );
    assert_eq!(name("Foo.app/x"), Some("Foo".to_string()));
    assert_eq!(name("/usr/bin/curl"), None);
    assert_eq!(name("/x/.app/y"), None);
    assert_eq!(name("/Applications/Safari.app"), None);
}

#[test]
fn a_process_is_identified_by_its_bundle_or_its_name() {
    let path = b"/Applications/Google Chrome.app/Contents/MacOS/Google Chrome\0";
    assert_eq!(
        zq::procinfo::resolve_bundle_id(60, path, "Chrome"),
        "app.google chrome"
    );
    assert_eq!(
        zq::procinfo::resolve_bundle_id(10, b"/usr/bin/curl\0", "curl"),
        "proc.curl"
    );
    assert_eq!(zq::procinfo::resolve_bundle_id(0, path, "unknown"), "proc.unknown");
    assert_eq!(zq::procinfo::resolve_bundle_id(5, b"/.app/x\0", "x"), "proc.x");
}

#[test]
fn identifiers_carry_their_kind() {
    assert_eq!(make_app_id("safari"), "app.safari");
    assert_eq!(make_proc_id("curl"), "proc.curl");
    assert_eq!(make_bundle_id(Some("SaFaRi\u{c4}".to_string()), "x"), "app.safari\u{e4}");
    assert_eq!(make_bundle_id(None, "x"), "proc.x");
}

#[test]
fn a_printed_name_is_its_last_component() {
    assert_eq!(zq::process::resolve_process_name(Some(&out(true, "/sbin/launchd\n"))), "launchd");
    assert_eq!(zq::process::resolve_process_name(Some(&out(true, "  curl  \n"))), "curl");
    assert_eq!(zq::process::resolve_process_name(Some(&out(true, " \n"))), "unknown");
    assert_eq!(zq::process::resolve_process_name(Some(&out(false, "curl"))), "unknown");
    assert_eq!(zq::process::resolve_process_name(None), "unknown");
    assert_eq!(zq::process::read_name("a/b/"), "");
}

#[test]
fn a_bundle_is_found_among_open_files() {
    let listing = "p77\nfcwd\nn/\nftxt\nn/.app/x\nn/Applications/Mail.app/Contents/MacOS/Mail\n\
                   n/Applications/Safari.app/y\n";
    assert_eq!(zq::process::resolve_bundle_id(Some(&out(true, listing)), "m"), "app.mail");
    // What was printed counts even where the program reports a failure.
    assert_eq!(zq::process::resolve_bundle_id(Some(&out(false, listing)), "m"), "app.mail");
    assert_eq!(zq::process::resolve_bundle_id(Some(&out(true, "p77\nn/bin/sh\n")), "sh"), "proc.sh");
    assert_eq!(zq::process::resolve_bundle_id(None, "sh"), "proc.sh");
    assert_eq!(zq::process::bundle_in("/a/noted.app/x"), Some("noted".to_string()));
}
