//! What holds of the owners of connections: who is found, and what they are
//! called.

use vstd::prelude::*;

use crate::net::EndpointView;
use crate::process::{
    bundle_among, bundle_listed, files_query, id_by_listing, listed_path, name_by_listing,
    name_query, printed_name,
};
use crate::procinfo::{
    before_zero, bundle_id, bundle_name, id_by_path, listed_pid, number_of, owner_among,
    owner_named, owners_query, process_name, reported_owner, reported_text, socket_name, wrapped,
};
use crate::text::{
    decimal, first_occurrence, law_decimal_reads_back, law_lines_concatenate, lemma_single_line,
    lines_of, lossy_text, lowercase, occurs_at, unsigned, white_space,
};
use crate::text_laws::{
    all_blank, digits, law_decimal_is_made_of_digits, law_first_occurrence_is_first,
    law_line_endings, law_tail_after_last, law_trimming_takes_the_blanks,
};

verus! {

/// A line names a process by a `p` and its number, every number of 32 bits, and no
/// other line names any.
pub proof fn law_lines_name_processes(line: Seq<char>, p: u32, n: nat)
    ensures
        listed_pid(seq!['p'] + decimal(p as nat)) == Some(p as nat),
        listed_pid(line) == Some(n) ==> line.len() > 1 && line[0] == 'p' && unsigned(
            line.skip(1),
            0xffff_ffff,
        ) == Some(n),
        line.len() == 0 || line[0] != 'p' || unsigned(line.skip(1), 0xffff_ffff) is None
            ==> listed_pid(line) is None,
{
    let s = seq!['p'] + decimal(p as nat);
    assert(s.drop_first() =~= decimal(p as nat));
    law_decimal_reads_back(p as nat, u32::MAX as nat);
    if line.len() > 0 {
        assert(line.drop_first() =~= line.skip(1));
    }
}

/// The owner is sought line by line: where the first lines name one, it is that
/// one, and otherwise the one that the others name. One line names its process,
/// unless that is the daemon's own.
pub proof fn law_first_owner_is_found(
    a: Seq<Seq<char>>,
    b: Seq<Seq<char>>,
    line: Seq<char>,
    our_pid: u32,
)
    ensures
        owner_among(a, our_pid) is Some ==> owner_among(a + b, our_pid) == owner_among(a, our_pid),
        owner_among(a, our_pid) is None ==> owner_among(a + b, our_pid) == owner_among(b, our_pid),
        owner_among(Seq::empty(), our_pid) is None,
        listed_pid(line) == Some(our_pid as nat) || listed_pid(line) is None ==> owner_among(
            seq![line],
            our_pid,
        ) is None,
        listed_pid(line) matches Some(p) ==> p != our_pid ==> owner_among(seq![line], our_pid)
            == Some(p as u32),
    decreases a.len(),
{
    reveal_with_fuel(owner_among, 3);
    assert(seq![line].drop_first() =~= Seq::<Seq<char>>::empty());
    if a.len() == 0 {
        assert(a + b =~= b);
    } else {
        law_first_owner_is_found(a.drop_first(), b, line, our_pid);
        assert((a + b).drop_first() =~= a.drop_first() + b);
        assert((a + b)[0] == a[0]);
    }
}

/// Every process can be found: in a listing that names nobody before it, the
/// process named by the line of its number is the owner, whichever it is, as long
/// as it is not the daemon's own.
pub proof fn law_named_owner_is_found(before: Seq<char>, p: u32, rest: Seq<char>, our_pid: u32)
    requires
        before.len() == 0 || before.last() == '\n',
        owner_among(lines_of(before), our_pid) is None,
        p != our_pid,
    ensures
        owner_among(
            lines_of(before + (seq!['p'] + decimal(p as nat)).push('\n') + rest),
            our_pid,
        ) == Some(p),
{
    let line = seq!['p'] + decimal(p as nat);
    let l = line.push('\n');
    lemma_digits_hold_no_feed(p as nat);
    assert forall|i: int| 0 <= i < line.len() implies line[i] != '\n' by {
        if i > 0 {
            assert(line[i] == decimal(p as nat)[i - 1]);
        }
    }
    law_decimal_is_made_of_digits(p as nat);
    assert(line.last() == decimal(p as nat)[decimal(p as nat).len() - 1]);
    law_line_endings(line);
    law_lines_concatenate(before, l);
    law_lines_concatenate(before + l, rest);
    assert((before + l).last() == '\n');
    law_lines_name_processes(line, p, 0);
    let a = lines_of(before);
    law_first_owner_is_found(a, seq![line], line, our_pid);
    law_first_owner_is_found(a + seq![line], lines_of(rest), line, our_pid);
}

proof fn lemma_digits_hold_no_feed(n: nat)
    ensures
        forall|i: int|
            0 <= i < decimal(n).len() ==> (#[trigger] decimal(n)[i]) != '\n' && decimal(n)[i]
                != '\r',
{
    law_decimal_is_made_of_digits(n);
    reveal_strlit("0123456789");
    assert forall|i: int| 0 <= i < decimal(n).len() implies (#[trigger] decimal(n)[i]) != '\n'
        && decimal(n)[i] != '\r' by {
        assert(digits().contains(decimal(n)[i]));
    }
}

/// A socket is asked about by its protocol and its endpoint.
pub proof fn law_sockets_are_named(addr: EndpointView)
    ensures
        socket_name(addr).take(4) == seq!['T', 'C', 'P', '@'],
        socket_name(addr).skip(4) == addr.text(),
{
    reveal_strlit("TCP@");
    assert(socket_name(addr).take(4) =~= seq!['T', 'C', 'P', '@']);
    assert(socket_name(addr).skip(4) =~= addr.text());
}

/// A buffer is read up to its first zero, or to its end.
pub proof fn law_buffers_end_at_zero(text: Seq<u8>, rest: Seq<u8>)
    requires
        forall|i: int| 0 <= i < text.len() ==> text[i] != 0,
    ensures
        before_zero(text + seq![0u8] + rest) == text,
        before_zero(text) == text,
    decreases text.len(),
{
    let s = text + seq![0u8] + rest;
    if text.len() > 0 {
        let t = text.drop_first();
        assert forall|i: int| 0 <= i < t.len() implies t[i] != 0 by {
            assert(t[i] == text[i + 1]);
        }
        law_buffers_end_at_zero(t, rest);
        assert(s.drop_first() =~= t + seq![0u8] + rest);
        assert(s[0] == text[0]);
        assert(seq![text[0]] + t =~= text);
    } else {
        assert(s[0] == 0);
        assert(text =~= Seq::<u8>::empty());
    }
}

/// What the system reports is believed where it says that there is something, and
/// only there.
pub proof fn law_reports_are_believed(ret: i32, text: Seq<u8>, rest: Seq<u8>)
    requires
        forall|i: int| 0 <= i < text.len() ==> text[i] != 0,
    ensures
        ret > 0 ==> reported_text(ret, text + seq![0u8] + rest) == Some(lossy_text(text)),
        ret > 0 ==> process_name(ret, text + seq![0u8] + rest) == lossy_text(text),
        ret <= 0 ==> reported_text(ret, text) is None,
        ret <= 0 ==> process_name(ret, text) == "unknown"@,
{
    law_buffers_end_at_zero(text, rest);
}

/// A path leads into the bundle named before the first `.app/` in it, by what
/// stands between the last slash there and that; where nothing does, or there is
/// no `.app/`, it leads into none.
pub proof fn law_paths_lead_into_bundles(dir: Seq<char>, name: Seq<char>, rest: Seq<char>)
    requires
        dir.len() == 0 || dir.last() == '/',
        forall|i: int| 0 <= i < name.len() ==> name[i] != '/',
        forall|j: int|
            0 <= j < dir.len() + name.len() ==> !#[trigger] occurs_at(
                dir + name + ".app/"@ + rest,
                ".app/"@,
                j,
            ),
    ensures
        name.len() > 0 ==> bundle_name(dir + name + ".app/"@ + rest) == Some(name),
        name.len() == 0 ==> bundle_name(dir + name + ".app/"@ + rest) is None,
{
    let path = dir + name + ".app/"@ + rest;
    let i = (dir.len() + name.len()) as int;
    reveal_strlit(".app/");
    assert(path.subrange(i, i + ".app/"@.len()) =~= ".app/"@);
    assert(occurs_at(path, ".app/"@, i));
    law_first_occurrence_is_first(path, ".app/"@);
    assert(crate::text::contains_text(path, ".app/"@));
    let k = first_occurrence(path, ".app/"@)->0;
    assert(k == i) by {
        if k < i {
            assert(occurs_at(path, ".app/"@, k));
        }
    }
    assert(path.take(i) =~= dir + name);
    if dir.len() > 0 {
        assert(dir =~= dir.drop_last().push('/'));
        law_tail_after_last(dir.drop_last(), name, '/');
    } else {
        assert(dir + name =~= name);
        law_tail_after_last(dir, name, '/');
    }
}

/// A path without `.app/` leads into no bundle.
pub proof fn law_other_paths_lead_nowhere(path: Seq<char>)
    requires
        !crate::text::contains_text(path, ".app/"@),
    ensures
        bundle_name(path) is None,
{
    law_first_occurrence_is_first(path, ".app/"@);
}

/// Listed files are looked through in order, without the mark in front of their
/// paths: the first that leads into a bundle decides.
pub proof fn law_first_bundle_is_found(a: Seq<Seq<char>>, b: Seq<Seq<char>>, path: Seq<char>)
    ensures
        bundle_among(a) is Some ==> bundle_among(a + b) == bundle_among(a),
        bundle_among(a) is None ==> bundle_among(a + b) == bundle_among(b),
        bundle_among(Seq::empty()) is None,
        bundle_among(seq![seq!['n'] + path]) == bundle_name(path),
        path.len() == 0 || path[0] != 'n' ==> bundle_among(seq![path]) == bundle_name(path),
    decreases a.len(),
{
    reveal_with_fuel(bundle_among, 3);
    let marked = seq!['n'] + path;
    assert(marked.drop_first() =~= path);
    assert(seq![marked].drop_first() =~= Seq::<Seq<char>>::empty());
    assert(seq![path].drop_first() =~= Seq::<Seq<char>>::empty());
    assert(listed_path(marked) == path);
    if a.len() == 0 {
        assert(a + b =~= b);
    } else {
        law_first_bundle_is_found(a.drop_first(), b, path);
        assert((a + b).drop_first() =~= a.drop_first() + b);
        assert((a + b)[0] == a[0]);
    }
}

/// A process in a bundle goes by the bundle's name in lower case, and one outside
/// by its own as it is.
pub proof fn law_identifiers_carry_the_name(bundle: Seq<char>, name: Seq<char>)
    ensures
        bundle_id(Some(bundle), name) == seq!['a', 'p', 'p', '.'] + lowercase(bundle),
        bundle_id(None, name) == seq!['p', 'r', 'o', 'c', '.'] + name,
{
    reveal_strlit("app.");
    reveal_strlit("proc.");
    assert("app."@ =~= seq!['a', 'p', 'p', '.']);
    assert("proc."@ =~= seq!['p', 'r', 'o', 'c', '.']);
}

/// The printed name is the last component of the path printed, whatever blanks
/// stand around it; where only blanks are printed, the name is unknown.
pub proof fn law_printed_names_are_last_components(
    before: Seq<char>,
    dir: Seq<char>,
    name: Seq<char>,
    after: Seq<char>,
)
    requires
        all_blank(before),
        all_blank(after),
        dir.len() == 0 || dir.last() == '/',
        forall|i: int| 0 <= i < name.len() ==> name[i] != '/',
        (dir + name).len() > 0 ==> !white_space((dir + name)[0]) && !white_space(
            (dir + name).last(),
        ),
    ensures
        (dir + name).len() > 0 ==> printed_name(before + (dir + name) + after) == name,
        (dir + name).len() == 0 ==> printed_name(before + (dir + name) + after) == "unknown"@,
{
    law_trimming_takes_the_blanks(before, dir + name, after);
    if dir.len() > 0 {
        assert(dir =~= dir.drop_last().push('/'));
        law_tail_after_last(dir.drop_last(), name, '/');
    } else {
        assert(dir + name =~= name);
        law_tail_after_last(dir, name, '/');
    }
}

/// A listing of owners counts where the program succeeded, and what it printed is
/// read line by line; the program that lists files is believed even where it
/// complains.
pub proof fn law_listings_are_read(stdout: Seq<u8>, success: bool, name: Seq<char>, our_pid: u32)
    ensures
        reported_owner(Some((true, stdout)), our_pid) == owner_among(
            lines_of(lossy_text(stdout)),
            our_pid,
        ),
        reported_owner(Some((false, stdout)), our_pid) is None,
        reported_owner(None, our_pid) is None,
        name_by_listing(Some((true, stdout))) == printed_name(lossy_text(stdout)),
        name_by_listing(Some((false, stdout))) == "unknown"@,
        name_by_listing(None) == "unknown"@,
        id_by_listing(Some((success, stdout)), name) == bundle_id(
            bundle_among(lines_of(lossy_text(stdout))),
            name,
        ),
        id_by_listing(None, name) == bundle_id(None, name),
{
}

/// A process is identified by the bundle that its path leads into, where the system
/// reports a path, and by its name otherwise.
pub proof fn law_paths_identify_processes(
    ret: i32,
    path: Seq<u8>,
    rest: Seq<u8>,
    name: Seq<char>,
)
    requires
        forall|i: int| 0 <= i < path.len() ==> path[i] != 0,
    ensures
        ret > 0 ==> id_by_path(ret, path + seq![0u8] + rest, name) == bundle_id(
            bundle_name(lossy_text(path)),
            name,
        ),
        ret <= 0 ==> id_by_path(ret, path, name) == bundle_id(None, name),
{
    law_reports_are_believed(ret, path, rest);
}

/// A process that was found keeps its number, whichever it is, and none goes by
/// another than zero.
pub proof fn law_found_processes_keep_their_numbers(p: u32)
    ensures
        number_of(Some(p)) == p,
        number_of(None) == 0,
{
}

/// A number is handed to the process library as the signed number of 32 bits that
/// agrees with it modulo 2^32.
pub proof fn law_numbers_wrap_around(p: u32)
    ensures
        -0x8000_0000 <= wrapped(p) < 0x8000_0000,
        wrapped(p) == p || wrapped(p) + 0x1_0000_0000 == p,
{
}

/// Each query is about what it is asked for: the process by its number, every one
/// there is, and the connection by its endpoint.
pub proof fn law_queries_name_their_subject(pid: u32, addr: EndpointView)
    ensures
        name_query(pid) == seq!["-p"@, decimal(pid as nat), "-o"@, "comm="@],
        files_query(pid) == seq!["-p"@, decimal(pid as nat), "-Fn"@],
        unsigned(name_query(pid)[1], 0xffff_ffff) == Some(pid as nat),
        unsigned(files_query(pid)[1], 0xffff_ffff) == Some(pid as nat),
        owners_query(addr) == seq!["-i"@, "TCP@"@ + addr.text(), "-n"@, "-P"@, "-F"@, "p"@],
{
    law_decimal_reads_back(pid as nat, 0xffff_ffff);
}

/// A text is read line by line: what a first part names comes before what the rest
/// does.
pub proof fn law_texts_are_read_in_order(a: Seq<char>, b: Seq<char>, our_pid: u32)
    requires
        a.len() == 0 || a.last() == '\n',
    ensures
        owner_named(a, our_pid) is Some ==> owner_named(a + b, our_pid) == owner_named(a, our_pid),
        owner_named(a, our_pid) is None ==> owner_named(a + b, our_pid) == owner_named(b, our_pid),
        bundle_listed(a) is Some ==> bundle_listed(a + b) == bundle_listed(a),
        bundle_listed(a) is None ==> bundle_listed(a + b) == bundle_listed(b),
{
    law_lines_concatenate(a, b);
    lemma_first_in_order(lines_of(a), lines_of(b), our_pid);
}

/// What the first lines name comes before what the later ones do.
proof fn lemma_first_in_order(a: Seq<Seq<char>>, b: Seq<Seq<char>>, our_pid: u32)
    ensures
        owner_among(a + b, our_pid) == (if owner_among(a, our_pid) is Some {
            owner_among(a, our_pid)
        } else {
            owner_among(b, our_pid)
        }),
        bundle_among(a + b) == (if bundle_among(a) is Some {
            bundle_among(a)
        } else {
            bundle_among(b)
        }),
    decreases a.len(),
{
    if a.len() == 0 {
        assert(a + b =~= b);
    } else {
        assert((a + b).drop_first() =~= a.drop_first() + b);
        lemma_first_in_order(a.drop_first(), b, our_pid);
    }
}

/// A line of its own that names a process, or a file in a bundle, names it to
/// whoever reads the text.
pub proof fn law_single_lines_are_read(line: Seq<char>, our_pid: u32)
    requires
        line.len() > 0,
        line.last() != '\r',
        forall|i: int| 0 <= i < line.len() ==> line[i] != '\n',
    ensures
        listed_pid(line) matches Some(p) ==> p != our_pid ==> owner_named(line.push('\n'), our_pid)
            == Some(p as u32),
        listed_pid(line) is None ==> owner_named(line.push('\n'), our_pid) is None,
        bundle_listed(line.push('\n')) == bundle_name(listed_path(line)),
{
    lemma_single_line(line);
    let lines = lines_of(line.push('\n'));
    assert(lines =~= seq![line]);
    assert(lines.drop_first() =~= Seq::<Seq<char>>::empty());
    assert(lines[0] == line);
    assert(bundle_among(lines.drop_first()) is None);
    assert(owner_among(lines.drop_first(), our_pid) is None);
}

} // verus!
