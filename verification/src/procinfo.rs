//! Which process owns a connection, and what to call it: readings of what
//! `lsof` prints and of what the process library puts into buffers.

use vstd::prelude::*;
use vstd::slice::slice_subrange;
use vstd::string::StringExecFns;

use crate::net::{Endpoint, EndpointView};
use crate::text::{
    after_last, chars_of, decode_lossy, find_text, first_occurrence, lines_of, lossy_text,
    lowercase, parse_unsigned, split_lines, string_of, tail_after, texts, to_lower, unsigned,
};

verus! {

/// What a program left behind.
#[derive(Debug)]
pub struct CommandOutput {
    pub success: bool,
    pub stdout: Vec<u8>,
}

/// The name of a TCP socket in a query to `lsof`.
pub open spec fn socket_name(addr: EndpointView) -> Seq<char> {
    "TCP@"@ + addr.text()
}

/// Names a TCP socket for a query to `lsof`.
pub fn name_socket(addr: Endpoint) -> (s: String)
    ensures
        s@ == socket_name(addr@),
{
    let mut s = "TCP@".to_string();
    s.append(addr.to_text().as_str());
    s
}

/// The contents of a list of arguments.
pub open spec fn arg_texts(s: Seq<String>) -> Seq<Seq<char>> {
    s.map_values(|a: String| a@)
}

/// The arguments with which `lsof` lists the processes that have a TCP socket.
pub open spec fn owners_query(addr: EndpointView) -> Seq<Seq<char>> {
    seq!["-i"@, socket_name(addr), "-n"@, "-P"@, "-F"@, "p"@]
}

/// The arguments with which `lsof` lists the processes that have a TCP socket.
pub fn ask_for_owners(addr: Endpoint) -> (v: Vec<String>)
    ensures
        arg_texts(v@) == owners_query(addr@),
        arg_texts(v@) == seq!["-i"@, socket_name(addr@), "-n"@, "-P"@, "-F"@, "p"@],
{
    let v: Vec<String> = vec![
        "-i".to_string(),
        name_socket(addr),
        "-n".to_string(),
        "-P".to_string(),
        "-F".to_string(),
        "p".to_string(),
    ];
    assert(arg_texts(v@) =~= seq!["-i"@, socket_name(addr@), "-n"@, "-P"@, "-F"@, "p"@]);
    v
}

/// The process that a line of `lsof` names: a `p`, then its number.
pub open spec fn listed_pid(line: Seq<char>) -> Option<nat> {
    if line.len() > 0 && line[0] == 'p' {
        unsigned(line.drop_first(), u32::MAX as nat)
    } else {
        None
    }
}

/// The first process named that is not `our_pid`.
pub open spec fn owner_among(lines: Seq<Seq<char>>, our_pid: u32) -> Option<u32>
    decreases lines.len(),
{
    if lines.len() == 0 {
        None
    } else {
        match listed_pid(lines[0]) {
            Some(p) => if p == our_pid {
                owner_among(lines.drop_first(), our_pid)
            } else {
                Some(p as u32)
            },
            None => owner_among(lines.drop_first(), our_pid),
        }
    }
}

/// The first process named in a text that is not `our_pid`.
pub open spec fn owner_named(text: Seq<char>, our_pid: u32) -> Option<u32> {
    owner_among(lines_of(text), our_pid)
}

/// Finds the first process named in the text that is not `our_pid`.
pub fn owner_in(text: &str, our_pid: u32) -> (r: Option<u32>)
    ensures
        r == owner_named(text@, our_pid),
        r == owner_among(lines_of(text@), our_pid),
{
    let cs = chars_of(text);
    let lines = split_lines(cs.as_slice());
    let ghost all = texts(lines@);
    assert(all.skip(0) == all);
    for i in 0..lines.len()
        invariant
            all == texts(lines@),
            all == lines_of(text@),
            owner_among(all, our_pid) == owner_among(all.skip(i as int), our_pid),
    {
        let ghost rest = all.skip(i as int);
        assert(rest[0] == lines@[i as int]@);
        assert(rest.drop_first() == all.skip(i + 1));
        let line = lines[i].as_slice();
        if line.len() > 0 && line[0] == 'p' {
            let digits = slice_subrange(line, 1, line.len());
            assert(digits@ == line@.drop_first());
            if let Some(pid) = parse_unsigned(digits, u32::MAX) {
                if pid != our_pid {
                    return Some(pid);
                }
            }
        }
    }
    None
}

/// Whether a program succeeded, and what it printed.
pub open spec fn output_view(output: Option<&CommandOutput>) -> Option<(bool, Seq<u8>)> {
    match output {
        Some(out) => Some((out.success, out.stdout@)),
        None => None,
    }
}

/// The owner that a listing names, if there is a listing.
pub open spec fn reported_owner(output: Option<(bool, Seq<u8>)>, our_pid: u32) -> Option<u32> {
    match output {
        Some((true, stdout)) => owner_among(lines_of(lossy_text(stdout)), our_pid),
        _ => None,
    }
}

/// The process that owns a socket, going by what `lsof` printed about it;
/// `None` where it could not be run. The daemon's own process does not count.
pub fn find_pid_for_addr(output: Option<&CommandOutput>, our_pid: u32) -> (r: Option<u32>)
    ensures
        r == reported_owner(output_view(output), our_pid),
        r == (match output {
            Some(out) => if out.success {
                owner_among(lines_of(lossy_text(out.stdout@)), our_pid)
            } else {
                None
            },
            None => None,
        }),
{
    match output {
        Some(out) => {
            if out.success {
                let text = decode_lossy(out.stdout.as_slice());
                owner_in(text.as_str(), our_pid)
            } else {
                None
            }
        },
        None => None,
    }
}

/// The number under which a connection's process goes.
pub open spec fn number_of(pid: Option<u32>) -> u32 {
    match pid {
        Some(q) => q,
        None => 0,
    }
}

/// The number under which a connection's process goes: zero where none was
/// found.
pub fn owner_or_none(pid: Option<u32>) -> (p: u32)
    ensures
        p == number_of(pid),
        p == (match pid {
            Some(q) => q,
            None => 0,
        }),
{
    match pid {
        Some(q) => q,
        None => 0,
    }
}

/// The number of a process as the process library takes it.
pub open spec fn wrapped(pid: u32) -> int {
    if pid <= i32::MAX {
        pid as int
    } else {
        pid - 0x1_0000_0000
    }
}

/// The number of a process as the process library takes it: numbers too large
/// for it wrap around to negative ones.
pub fn signed_pid(pid: u32) -> (p: i32)
    ensures
        p == wrapped(pid),
        pid <= i32::MAX ==> p == pid,
        pid > i32::MAX ==> p == pid - 0x1_0000_0000,
{
    if pid <= i32::MAX as u32 {
        pid as i32
    } else {
        (pid as i64 - 0x1_0000_0000) as i32
    }
}

/// The bytes before the first zero, or all of them where there is none.
pub open spec fn before_zero(buf: Seq<u8>) -> Seq<u8>
    decreases buf.len(),
{
    if buf.len() == 0 || buf[0] == 0 {
        Seq::empty()
    } else {
        seq![buf[0]] + before_zero(buf.drop_first())
    }
}

/// Cuts a buffer before its first zero.
pub fn cut_at_zero(buf: &[u8]) -> (s: &[u8])
    ensures
        s@ == before_zero(buf@),
{
    let n: usize = buf.len();
    let mut i: usize = 0;
    assert(buf@.skip(0) == buf@);
    assert(buf@.take(0) + before_zero(buf@) == before_zero(buf@));
    while i < n && buf[i] != 0
        invariant
            i <= n == buf@.len(),
            before_zero(buf@) == buf@.take(i as int) + before_zero(buf@.skip(i as int)),
        decreases n - i,
    {
        let ghost rest = buf@.skip(i as int);
        assert(rest.drop_first() == buf@.skip(i + 1));
        assert(buf@.take(i as int) + (seq![rest[0]] + before_zero(rest.drop_first()))
            == buf@.take(i + 1) + before_zero(buf@.skip(i + 1)));
        i = i + 1;
    }
    assert(before_zero(buf@.skip(i as int)) =~= Seq::empty());
    assert(buf@.take(i as int) == before_zero(buf@));
    slice_subrange(buf, 0, i)
}

/// The text in a buffer that a system call filled, if it reports success by a
/// positive number.
pub open spec fn reported_text(ret: i32, buf: Seq<u8>) -> Option<Seq<char>> {
    if ret > 0 {
        Some(lossy_text(before_zero(buf)))
    } else {
        None
    }
}

/// The name of a process from what the system reported.
pub open spec fn process_name(ret: i32, buf: Seq<u8>) -> Seq<char> {
    match reported_text(ret, buf) {
        Some(name) => name,
        None => "unknown"@,
    }
}

/// Names a process from what the system reported: the text in the buffer, or
/// `unknown`.
pub fn resolve_process_name(ret: i32, buf: &[u8]) -> (s: String)
    ensures
        s@ == process_name(ret, buf@),
{
    if ret > 0 {
        decode_lossy(cut_at_zero(buf))
    } else {
        "unknown".to_string()
    }
}

/// The name of the application bundle that a path leads into: what stands
/// between the last slash before the first `.app/` and that `.app/`.
pub open spec fn bundle_name(path: Seq<char>) -> Option<Seq<char>> {
    match first_occurrence(path, ".app/"@) {
        Some(i) => {
            let name = after_last(path.take(i), '/');
            if name.len() > 0 {
                Some(name)
            } else {
                None
            }
        },
        None => None,
    }
}

/// Finds the name of the application bundle that a path leads into.
pub fn find_bundle_name(path: &[char]) -> (r: Option<String>)
    ensures
        (match r {
            Some(name) => bundle_name(path@) == Some(name@),
            None => bundle_name(path@) is None,
        }),
{
    let mark = chars_of(".app/");
    match find_text(path, mark.as_slice()) {
        Some(i) => {
            let head = slice_subrange(path, 0, i);
            assert(head@ == path@.take(i as int));
            let name = tail_after(head, '/');
            if name.len() > 0 {
                Some(string_of(name))
            } else {
                None
            }
        },
        None => None,
    }
}

/// The identifier of a bundle whose name in lower case is `lowered`.
pub open spec fn app_id(lowered: Seq<char>) -> Seq<char> {
    "app."@ + lowered
}

/// The identifier of a process outside any bundle.
pub open spec fn proc_id(name: Seq<char>) -> Seq<char> {
    "proc."@ + name
}

/// Makes the identifier of a bundle from its name in lower case.
pub fn make_app_id(lowered: &str) -> (s: String)
    ensures
        s@ == app_id(lowered@),
{
    let mut s = "app.".to_string();
    s.append(lowered);
    s
}

/// Makes the identifier of a process outside any bundle.
pub fn make_proc_id(name: &str) -> (s: String)
    ensures
        s@ == proc_id(name@),
{
    let mut s = "proc.".to_string();
    s.append(name);
    s
}

/// The identifier of a process with that bundle, if any, and that name.
pub open spec fn bundle_id(bundle: Option<Seq<char>>, name: Seq<char>) -> Seq<char> {
    match bundle {
        Some(b) => app_id(lowercase(b)),
        None => proc_id(name),
    }
}

/// Makes the identifier of a process with that bundle, if any, and that name.
pub fn make_bundle_id(bundle: Option<String>, name: &str) -> (s: String)
    ensures
        s@ == bundle_id(
            match bundle {
                Some(b) => Some(b@),
                None => None,
            },
            name@,
        ),
{
    match bundle {
        Some(b) => {
            let lowered = to_lower(b.as_str());
            make_app_id(lowered.as_str())
        },
        None => make_proc_id(name),
    }
}

/// The identifier of a process with that name, whose path the system reported.
pub open spec fn id_by_path(path_ret: i32, path_buf: Seq<u8>, name: Seq<char>) -> Seq<char> {
    bundle_id(
        match reported_text(path_ret, path_buf) {
            Some(path) => bundle_name(path),
            None => None,
        },
        name,
    )
}

/// Identifies a process from its path as the system reported it: by the
/// application bundle that the path leads into, or else by its name.
pub fn resolve_bundle_id(path_ret: i32, path_buf: &[u8], name: &str) -> (s: String)
    ensures
        s@ == id_by_path(path_ret, path_buf@, name@),
        s@ == bundle_id(
            match reported_text(path_ret, path_buf@) {
                Some(path) => bundle_name(path),
                None => None,
            },
            name@,
        ),
{
    if path_ret > 0 {
        let path = decode_lossy(cut_at_zero(path_buf));
        let cs = chars_of(path.as_str());
        let bundle = find_bundle_name(cs.as_slice());
        make_bundle_id(bundle, name)
    } else {
        make_bundle_id(None, name)
    }
}

/// The daemon's own process is never taken for the owner.
pub proof fn law_own_process_never_found(lines: Seq<Seq<char>>, our_pid: u32)
    ensures
        owner_among(lines, our_pid) != Some(our_pid),
    decreases lines.len(),
{
    if lines.len() > 0 {
        law_own_process_never_found(lines.drop_first(), our_pid);
    }
}

/// Whoever is found is named on some line.
pub proof fn law_owner_is_listed(lines: Seq<Seq<char>>, our_pid: u32)
    ensures
        owner_among(lines, our_pid) matches Some(p) ==> exists|i: int|
            0 <= i < lines.len() && #[trigger] listed_pid(lines[i]) == Some(p as nat),
    decreases lines.len(),
{
    if lines.len() > 0 {
        let rest = lines.drop_first();
        law_owner_is_listed(rest, our_pid);
        if let Some(p) = owner_among(lines, our_pid) {
            if listed_pid(lines[0]) is Some && listed_pid(lines[0])->0 != our_pid {
                assert(listed_pid(lines[0]) == Some(p as nat));
            } else {
                let i = choose|i: int|
                    0 <= i < rest.len() && #[trigger] listed_pid(rest[i]) == Some(p as nat);
                assert(listed_pid(lines[i + 1]) == Some(p as nat));
            }
        }
    }
}

/// The name of a bundle holds no slash.
pub proof fn law_bundle_name_is_one_component(path: Seq<char>)
    ensures
        bundle_name(path) matches Some(name) ==> forall|i: int|
            0 <= i < name.len() ==> name[i] != '/',
{
    if let Some(i) = first_occurrence(path, ".app/"@) {
        lemma_after_last(path.take(i), '/');
    }
}

proof fn lemma_after_last(s: Seq<char>, c: char)
    ensures
        forall|i: int| 0 <= i < after_last(s, c).len() ==> after_last(s, c)[i] != c,
    decreases s.len(),
{
    if s.len() > 0 {
        let p = after_last(s.drop_last(), c);
        lemma_after_last(s.drop_last(), c);
        assert forall|i: int| 0 <= i < after_last(s, c).len() implies after_last(s, c)[i] != c by {
            if i < p.len() {
                assert(after_last(s, c)[i] == p[i]);
            }
        }
    }
}

/// A bundle is never mistaken for a process outside any bundle.
pub proof fn law_identifiers_keep_kinds_apart(lowered: Seq<char>, name: Seq<char>)
    ensures
        app_id(lowered) != proc_id(name),
{
    reveal_strlit("app.");
    reveal_strlit("proc.");
    assert(app_id(lowered)[0] == 'a');
    assert(proc_id(name)[0] == 'p');
}

} // verus!
