//! What to call a process: what to ask `ps` and `lsof`, and readings of what
//! they print.

use vstd::prelude::*;
use vstd::slice::slice_subrange;

use crate::procinfo::{
    arg_texts, bundle_id, bundle_name, find_bundle_name, make_bundle_id, output_view,
    CommandOutput,
};
use crate::text::{
    after_last, chars_of, decimal, decimal_string, decode_lossy, lines_of, lossy_text, split_lines,
    string_of, tail_after, texts, trim, trimmed,
};

verus! {

/// The arguments with which `ps` prints the name of a process.
pub open spec fn name_query(pid: u32) -> Seq<Seq<char>> {
    seq!["-p"@, decimal(pid as nat), "-o"@, "comm="@]
}

/// The arguments with which `lsof` lists the files of a process.
pub open spec fn files_query(pid: u32) -> Seq<Seq<char>> {
    seq!["-p"@, decimal(pid as nat), "-Fn"@]
}

/// The arguments with which `ps` prints the name of a process.
pub fn ask_for_name(pid: u32) -> (v: Vec<String>)
    ensures
        arg_texts(v@) == name_query(pid),
        arg_texts(v@) == seq!["-p"@, decimal(pid as nat), "-o"@, "comm="@],
{
    let v: Vec<String> = vec![
        "-p".to_string(),
        decimal_string(pid as u64),
        "-o".to_string(),
        "comm=".to_string(),
    ];
    assert(arg_texts(v@) =~= seq!["-p"@, decimal(pid as nat), "-o"@, "comm="@]);
    v
}

/// The arguments with which `lsof` lists the files of a process.
pub fn ask_for_files(pid: u32) -> (v: Vec<String>)
    ensures
        arg_texts(v@) == files_query(pid),
        arg_texts(v@) == seq!["-p"@, decimal(pid as nat), "-Fn"@],
{
    let v: Vec<String> = vec!["-p".to_string(), decimal_string(pid as u64), "-Fn".to_string()];
    assert(arg_texts(v@) =~= seq!["-p"@, decimal(pid as nat), "-Fn"@]);
    v
}

/// The name in what `ps` printed: the last component of the path, or `unknown`
/// where nothing was printed.
pub open spec fn printed_name(text: Seq<char>) -> Seq<char> {
    let t = trimmed(text);
    if t.len() == 0 {
        "unknown"@
    } else {
        after_last(t, '/')
    }
}

/// Reads the name in what `ps` printed.
pub fn read_name(text: &str) -> (s: String)
    ensures
        s@ == printed_name(text@),
{
    let cs = chars_of(text);
    let t = trim(cs.as_slice());
    if t.len() == 0 {
        "unknown".to_string()
    } else {
        string_of(tail_after(t, '/'))
    }
}

/// The name of a process, by what `ps` printed about it.
pub open spec fn name_by_listing(output: Option<(bool, Seq<u8>)>) -> Seq<char> {
    match output {
        Some((true, stdout)) => printed_name(lossy_text(stdout)),
        _ => "unknown"@,
    }
}

/// Names a process from what `ps` printed about it; `None` where it could not
/// be run.
pub fn resolve_process_name(output: Option<&CommandOutput>) -> (s: String)
    ensures
        s@ == name_by_listing(output_view(output)),
        s@ == (match output {
            Some(out) => if out.success {
                printed_name(lossy_text(out.stdout@))
            } else {
                "unknown"@
            },
            None => "unknown"@,
        }),
{
    match output {
        Some(out) => {
            if out.success {
                let text = decode_lossy(out.stdout.as_slice());
                read_name(text.as_str())
            } else {
                "unknown".to_string()
            }
        },
        None => "unknown".to_string(),
    }
}

/// The path on a line of `lsof`, without the `n` that marks it.
pub open spec fn listed_path(line: Seq<char>) -> Seq<char> {
    if line.len() > 0 && line[0] == 'n' {
        line.drop_first()
    } else {
        line
    }
}

/// The name of the first application bundle that a listed path leads into.
pub open spec fn bundle_among(lines: Seq<Seq<char>>) -> Option<Seq<char>>
    decreases lines.len(),
{
    if lines.len() == 0 {
        None
    } else {
        match bundle_name(listed_path(lines[0])) {
            Some(name) => Some(name),
            None => bundle_among(lines.drop_first()),
        }
    }
}

/// The first application bundle named in a text.
pub open spec fn bundle_listed(text: Seq<char>) -> Option<Seq<char>> {
    bundle_among(lines_of(text))
}

/// Finds the first application bundle that a path in the text leads into.
pub fn bundle_in(text: &str) -> (r: Option<String>)
    ensures
        (match r {
            Some(name) => bundle_among(lines_of(text@)) == Some(name@),
            None => bundle_among(lines_of(text@)) is None,
        }),
        r matches Some(name) ==> bundle_listed(text@) == Some(name@),
        r is None ==> bundle_listed(text@) is None,
{
    let cs = chars_of(text);
    let lines = split_lines(cs.as_slice());
    let ghost all = texts(lines@);
    assert(all.skip(0) == all);
    for i in 0..lines.len()
        invariant
            all == texts(lines@),
            all == lines_of(text@),
            bundle_among(all) == bundle_among(all.skip(i as int)),
    {
        let ghost rest = all.skip(i as int);
        assert(rest[0] == lines@[i as int]@);
        assert(rest.drop_first() == all.skip(i + 1));
        let line = lines[i].as_slice();
        let start: usize = if line.len() > 0 && line[0] == 'n' {
            1
        } else {
            0
        };
        let path = slice_subrange(line, start, line.len());
        assert(path@ == listed_path(line@));
        let name = find_bundle_name(path);
        if name.is_some() {
            return name;
        }
    }
    None
}

/// The identifier of a process with that name, by the files that `lsof` lists.
pub open spec fn id_by_listing(output: Option<(bool, Seq<u8>)>, name: Seq<char>) -> Seq<char> {
    bundle_id(
        match output {
            Some((_, stdout)) => bundle_among(lines_of(lossy_text(stdout))),
            None => None,
        },
        name,
    )
}

/// Identifies a process from the files that `lsof` lists for it: by the first
/// application bundle among them, or else by its name.
pub fn resolve_bundle_id(output: Option<&CommandOutput>, name: &str) -> (s: String)
    ensures
        s@ == id_by_listing(output_view(output), name@),
        s@ == bundle_id(
            match output {
                Some(out) => bundle_among(lines_of(lossy_text(out.stdout@))),
                None => None,
            },
            name@,
        ),
{
    match output {
        Some(out) => {
            let text = decode_lossy(out.stdout.as_slice());
            let bundle = bundle_in(text.as_str());
            make_bundle_id(bundle, name)
        },
        None => make_bundle_id(None, name),
    }
}

} // verus!
