//! The packet-filter rules: what is loaded, and the steps of loading and
//! unloading them.
//!
//! Files and the control program are worked outside. A `RuleLoad` and a
//! `RuleUnload` say what to do next, and are told how it went.

use vstd::prelude::*;
use vstd::string::StringExecFns;

use crate::text::{
    begins_with, chars_of, contains_text, decimal, decode_lossy, law_lines_concatenate,
    lemma_position, lemma_single_line, lines_of, lossy_text, position, push_decimal, split_lines,
    starts_with, string_of, text_contains, texts, trim, trimmed, without_cr,
};

verus! {

/// Reference to the redirection rules of the anchor.
pub const RDR_LINE: &'static str = "rdr-anchor \"zq\"";

/// Reference to the filtering rules of the anchor.
pub const ANCHOR_LINE: &'static str = "anchor \"zq\"";

/// Where the system keeps its rules.
pub const SYSTEM_CONFIG: &'static str = "/etc/pf.conf";

/// Where the extended rules are put for loading.
pub const TEMP_CONFIG: &'static str = "/tmp/zq-pf.conf";

/// The two kinds of references to an anchor's rules.
#[derive(Debug, Clone, Copy, PartialEq, Eq, Structural)]
pub enum Reference {
    /// To its redirection rules.
    Rdr,
    /// To its filtering rules.
    Anchor,
}

impl Reference {
    /// A line that refers to some anchor in this way.
    pub open spec fn marks(self, line: Seq<char>) -> bool {
        match self {
            Reference::Rdr => starts_with(trimmed(line), "rdr-anchor"@),
            Reference::Anchor => starts_with(trimmed(line), "anchor "@),
        }
    }

    /// The line that refers to this anchor in this way.
    pub open spec fn text(self) -> Seq<char> {
        match self {
            Reference::Rdr => RDR_LINE@,
            Reference::Anchor => ANCHOR_LINE@,
        }
    }

    /// The number of the last line that refers to some anchor in this way,
    /// counted from one; zero where there is none.
    pub open spec fn last_line(self, lines: Seq<Seq<char>>) -> nat
        decreases lines.len(),
    {
        if lines.len() == 0 {
            0
        } else if self.marks(lines.last()) {
            lines.len()
        } else {
            self.last_line(lines.drop_last())
        }
    }

    /// The number of the line after which the reference goes: the last line of
    /// its kind; where there is none, one more than there are lines.
    pub open spec fn place(self, lines: Seq<Seq<char>>) -> nat {
        if self.last_line(lines) == 0 {
            lines.len() + 1
        } else {
            self.last_line(lines)
        }
    }

    /// Whether a line refers to some anchor in this way.
    fn is_on(&self, line: &[char]) -> (b: bool)
        ensures
            b == self.marks(line@),
    {
        let t = trim(line);
        match self {
            Reference::Rdr => begins_with(t, "rdr-anchor"),
            Reference::Anchor => begins_with(t, "anchor "),
        }
    }

    /// Finds the last line that refers to some anchor in this way.
    fn find_last(&self, lines: &Vec<Vec<char>>) -> (n: usize)
        ensures
            n == self.last_line(texts(lines@)),
            n <= lines@.len(),
    {
        let ghost all = texts(lines@);
        let mut n: usize = 0;
        for i in 0..lines.len()
            invariant
                all == texts(lines@),
                n <= i,
                n == self.last_line(all.take(i as int)),
        {
            assert(all.take(i + 1).drop_last() == all.take(i as int));
            assert(all.take(i + 1).last() == lines@[i as int]@);
            if self.is_on(lines[i].as_slice()) {
                n = i + 1;
            }
        }
        assert(all.take(all.len() as int) == all);
        n
    }
}

/// The last line of a kind is of that kind, and no later line is.
pub proof fn lemma_last_line(kind: Reference, lines: Seq<Seq<char>>)
    ensures
        kind.last_line(lines) <= lines.len(),
        kind.last_line(lines) > 0 ==> kind.marks(lines[kind.last_line(lines) - 1]),
        forall|j: int|
            kind.last_line(lines) <= j < lines.len() ==> !kind.marks(#[trigger] lines[j]),
    decreases lines.len(),
{
    if lines.len() > 0 && !kind.marks(lines.last()) {
        let front = lines.drop_last();
        lemma_last_line(kind, front);
        assert forall|j: int| kind.last_line(lines) <= j < lines.len() implies !kind.marks(
            #[trigger] lines[j],
        ) by {
            if j < front.len() {
                assert(front[j] == lines[j]);
            }
        }
    }
}

/// A place no further than the end.
pub open spec fn up_to_end(place: nat, lines: Seq<Seq<char>>) -> int {
    if place <= lines.len() {
        place as int
    } else {
        lines.len() as int
    }
}

/// The system's lines with the two references of this anchor: each right after
/// the last line of its kind, or at the end.
pub open spec fn extended(lines: Seq<Seq<char>>) -> Seq<Seq<char>> {
    let r = up_to_end(Reference::Rdr.place(lines), lines);
    let a = up_to_end(Reference::Anchor.place(lines), lines);
    if Reference::Rdr.place(lines) <= Reference::Anchor.place(lines) {
        lines.take(r) + seq![RDR_LINE@] + lines.subrange(r, a) + seq![ANCHOR_LINE@] + lines.skip(a)
    } else {
        lines.take(a) + seq![ANCHOR_LINE@] + lines.subrange(a, r) + seq![RDR_LINE@] + lines.skip(r)
    }
}

/// Lines as one text, a line feed after each.
pub open spec fn joined(lines: Seq<Seq<char>>) -> Seq<char>
    decreases lines.len(),
{
    if lines.len() == 0 {
        Seq::empty()
    } else {
        joined(lines.drop_last()) + lines.last().push('\n')
    }
}

/// The main rules: those of the system and the two references of this anchor.
pub open spec fn main_rules(base: Seq<char>) -> Seq<char> {
    joined(extended(lines_of(base)))
}

proof fn lemma_joined_push(lines: Seq<Seq<char>>, line: Seq<char>)
    ensures
        joined(lines.push(line)) == joined(lines) + line.push('\n'),
{
    assert(lines.push(line).drop_last() == lines);
}

/// The first `i` lines with the references whose places lie among them.
spec fn extended_to(lines: Seq<Seq<char>>, r: int, a: int, i: int) -> Seq<Seq<char>>
    decreases i,
{
    if i <= 0 {
        Seq::empty()
    } else {
        let s = extended_to(lines, r, a, i - 1).push(lines[i - 1]);
        let t = if r == i {
            s.push(RDR_LINE@)
        } else {
            s
        };
        if a == i {
            t.push(ANCHOR_LINE@)
        } else {
            t
        }
    }
}

proof fn lemma_extended_to(lines: Seq<Seq<char>>, r: int, a: int, i: int)
    requires
        0 <= i <= lines.len(),
        r > 0,
        a > 0,
    ensures
        i < r && i < a ==> extended_to(lines, r, a, i) == lines.take(i),
        r <= i < a ==> extended_to(lines, r, a, i) == lines.take(r) + seq![RDR_LINE@]
            + lines.subrange(r, i),
        a <= i < r ==> extended_to(lines, r, a, i) == lines.take(a) + seq![ANCHOR_LINE@]
            + lines.subrange(a, i),
        r <= a <= i ==> extended_to(lines, r, a, i) == lines.take(r) + seq![RDR_LINE@]
            + lines.subrange(r, a) + seq![ANCHOR_LINE@] + lines.subrange(a, i),
        a < r <= i ==> extended_to(lines, r, a, i) == lines.take(a) + seq![ANCHOR_LINE@]
            + lines.subrange(a, r) + seq![RDR_LINE@] + lines.subrange(r, i),
    decreases i,
{
    if i > 0 {
        lemma_extended_to(lines, r, a, i - 1);
        assert(lines.take(i) == lines.take(i - 1).push(lines[i - 1]));
        if r <= i - 1 {
            assert(lines.subrange(r, i) == lines.subrange(r, i - 1).push(lines[i - 1]));
        }
        if a <= i - 1 {
            assert(lines.subrange(a, i) == lines.subrange(a, i - 1).push(lines[i - 1]));
        }
        if r <= i {
            assert(lines.subrange(i, i) == Seq::<Seq<char>>::empty());
        }
    }
}

/// Appends a line.
fn push_line(s: &mut String, line: &str)
    ensures
        final(s)@ == old(s)@ + line@.push('\n'),
{
    s.append(line);
    s.push('\n');
    assert(s@ =~= old(s)@ + line@.push('\n'));
}

/// Extends the system's rules by the two references of this anchor.
pub fn main_config(base: &str) -> (s: String)
    ensures
        s@ == main_rules(base@),
{
    let cs = chars_of(base);
    let lines = split_lines(cs.as_slice());
    let ghost all = texts(lines@);
    let after_rdr: usize = Reference::Rdr.find_last(&lines);
    let after_anchor: usize = Reference::Anchor.find_last(&lines);
    let ghost n = all.len() as int;
    let ghost r = Reference::Rdr.place(all) as int;
    let ghost a = Reference::Anchor.place(all) as int;
    let mut s = String::new();
    for i in 0..lines.len()
        invariant
            all == texts(lines@),
            after_rdr > 0 ==> r == after_rdr,
            after_rdr == 0 ==> r == all.len() + 1,
            after_anchor > 0 ==> a == after_anchor,
            after_anchor == 0 ==> a == all.len() + 1,
            s@ == joined(extended_to(all, r, a, i as int)),
    {
        let ghost done = extended_to(all, r, a, i as int).push(all[i as int]);
        let line = string_of(lines[i].as_slice());
        push_line(&mut s, line.as_str());
        proof {
            lemma_joined_push(extended_to(all, r, a, i as int), all[i as int]);
            lemma_joined_push(done, RDR_LINE@);
            lemma_joined_push(done, ANCHOR_LINE@);
            lemma_joined_push(done.push(RDR_LINE@), ANCHOR_LINE@);
        }
        if after_rdr == i + 1 {
            push_line(&mut s, RDR_LINE);
        }
        if after_anchor == i + 1 {
            push_line(&mut s, ANCHOR_LINE);
        }
    }
    let ghost done = extended_to(all, r, a, n);
    proof {
        lemma_joined_push(done, RDR_LINE@);
        lemma_joined_push(done, ANCHOR_LINE@);
        lemma_joined_push(done.push(RDR_LINE@), ANCHOR_LINE@);
        lemma_last_line(Reference::Rdr, all);
        lemma_last_line(Reference::Anchor, all);
        lemma_extended_to(all, r, a, n);
    }
    if after_rdr == 0 {
        push_line(&mut s, RDR_LINE);
    }
    if after_anchor == 0 {
        push_line(&mut s, ANCHOR_LINE);
    }
    proof {
        let mid = if r > n {
            done.push(RDR_LINE@)
        } else {
            done
        };
        let last = if a > n {
            mid.push(ANCHOR_LINE@)
        } else {
            mid
        };
        assert(s@ == joined(last));
        assert(last =~= extended(all));
    }
    s
}

/// The rules of the anchor: redirect web traffic to the local port, and route
/// it there unless the daemon's own user sent it.
pub open spec fn anchor_rules(port: u16, excluded_uid: u32) -> Seq<char> {
    "rdr pass on lo0 proto tcp from any to !127.0.0.1 port {80, 443} -> 127.0.0.1 port "@ + decimal(
        port as nat,
    )
        + "\npass out route-to (lo0 127.0.0.1) proto tcp from any to any port {80, 443} keep state user != "@
        + decimal(excluded_uid as nat) + "\n"@
}

/// Writes the rules of the anchor.
pub fn write_anchor_rules(port: u16, excluded_uid: u32) -> (s: String)
    ensures
        s@ == anchor_rules(port, excluded_uid),
{
    let mut s =
        "rdr pass on lo0 proto tcp from any to !127.0.0.1 port {80, 443} -> 127.0.0.1 port ".to_string();
    push_decimal(&mut s, port as u64);
    s.append(
        "\npass out route-to (lo0 127.0.0.1) proto tcp from any to any port {80, 443} keep state user != ",
    );
    push_decimal(&mut s, excluded_uid as u64);
    s.append("\n");
    s
}

/// A call of the packet filter's control program.
#[derive(Debug, Clone, Copy, PartialEq, Eq, Structural)]
pub enum Pfctl {
    /// Load the extended main rules.
    LoadMain,
    /// Load the anchor's rules from the input.
    LoadAnchor,
    /// Turn the packet filter on.
    Enable,
    /// Remove the anchor's rules.
    Flush,
    /// Load the system's own main rules again.
    Restore,
    /// Show the anchor's rules.
    Show,
}

/// The contents of a list of arguments.
pub open spec fn arg_views(s: Seq<&'static str>) -> Seq<Seq<char>> {
    s.map_values(|a: &'static str| a@)
}

impl Pfctl {
    /// The arguments of the call.
    pub open spec fn arg_texts(self) -> Seq<Seq<char>> {
        match self {
            Pfctl::LoadMain => seq!["-f"@, TEMP_CONFIG@],
            Pfctl::LoadAnchor => seq!["-a"@, "zq"@, "-f"@, "-"@],
            Pfctl::Enable => seq!["-e"@],
            Pfctl::Flush => seq!["-a"@, "zq"@, "-F"@, "all"@],
            Pfctl::Restore => seq!["-f"@, SYSTEM_CONFIG@],
            Pfctl::Show => seq!["-a"@, "zq"@, "-sr"@],
        }
    }

    /// The arguments of the call.
    pub fn args(&self) -> (v: Vec<&'static str>)
        ensures
            arg_views(v@) == self.arg_texts(),
    {
        let v: Vec<&'static str> = match self {
            Pfctl::LoadMain => vec!["-f", TEMP_CONFIG],
            Pfctl::LoadAnchor => vec!["-a", "zq", "-f", "-"],
            Pfctl::Enable => vec!["-e"],
            Pfctl::Flush => vec!["-a", "zq", "-F", "all"],
            Pfctl::Restore => vec!["-f", SYSTEM_CONFIG],
            Pfctl::Show => vec!["-a", "zq", "-sr"],
        };
        assert(arg_views(v@) =~= self.arg_texts());
        v
    }

    /// The call as one would type it.
    pub open spec fn typed(self) -> Seq<char> {
        match self {
            Pfctl::LoadMain => "pfctl -f /tmp/zq-pf.conf"@,
            Pfctl::LoadAnchor => "pfctl -a zq -f -"@,
            Pfctl::Enable => "pfctl -e"@,
            Pfctl::Flush => "pfctl -a zq -F all"@,
            Pfctl::Restore => "pfctl -f /etc/pf.conf"@,
            Pfctl::Show => "pfctl -a zq -sr"@,
        }
    }

    /// The call as one would type it.
    pub fn command_line(&self) -> (s: &'static str)
        ensures
            s@ == self.typed(),
    {
        match self {
            Pfctl::LoadMain => "pfctl -f /tmp/zq-pf.conf",
            Pfctl::LoadAnchor => "pfctl -a zq -f -",
            Pfctl::Enable => "pfctl -e",
            Pfctl::Flush => "pfctl -a zq -F all",
            Pfctl::Restore => "pfctl -f /etc/pf.conf",
            Pfctl::Show => "pfctl -a zq -sr",
        }
    }
}

/// Why the rules were not loaded or unloaded.
#[derive(Debug)]
pub enum PfError {
    ReadConfig,
    WriteTemp,
    RunMain,
    SpawnAnchor,
    WriteAnchor,
    WaitAnchor,
    RunEnable,
    RunFlush,
    RunRestore,
    /// The control program refused.
    Refused { command: Pfctl, stderr: String },
}

/// The contents of a `PfError`.
pub enum PfErrorView {
    ReadConfig,
    WriteTemp,
    RunMain,
    SpawnAnchor,
    WriteAnchor,
    WaitAnchor,
    RunEnable,
    RunFlush,
    RunRestore,
    Refused { command: Pfctl, stderr: Seq<char> },
}

impl View for PfError {
    type V = PfErrorView;

    open spec fn view(&self) -> PfErrorView {
        match self {
            PfError::ReadConfig => PfErrorView::ReadConfig,
            PfError::WriteTemp => PfErrorView::WriteTemp,
            PfError::RunMain => PfErrorView::RunMain,
            PfError::SpawnAnchor => PfErrorView::SpawnAnchor,
            PfError::WriteAnchor => PfErrorView::WriteAnchor,
            PfError::WaitAnchor => PfErrorView::WaitAnchor,
            PfError::RunEnable => PfErrorView::RunEnable,
            PfError::RunFlush => PfErrorView::RunFlush,
            PfError::RunRestore => PfErrorView::RunRestore,
            PfError::Refused { command, stderr } => PfErrorView::Refused {
                command: *command,
                stderr: stderr@,
            },
        }
    }
}

impl PfErrorView {
    /// The error in words.
    pub open spec fn words(self) -> Seq<char> {
        match self {
            PfErrorView::ReadConfig => "failed to read /etc/pf.conf"@,
            PfErrorView::WriteTemp => "failed to write temp pf config"@,
            PfErrorView::RunMain => "failed to run pfctl -f for main config"@,
            PfErrorView::SpawnAnchor => "failed to spawn pfctl for anchor rules"@,
            PfErrorView::WriteAnchor => "failed to write anchor rules to pfctl"@,
            PfErrorView::WaitAnchor => "failed to wait for pfctl"@,
            PfErrorView::RunEnable => "failed to run pfctl -e"@,
            PfErrorView::RunFlush => "failed to run pfctl -a zq -F all"@,
            PfErrorView::RunRestore => "failed to restore /etc/pf.conf"@,
            PfErrorView::Refused { command, stderr } => command.typed() + " failed: "@ + stderr,
        }
    }
}

impl PfError {
    /// Puts the error in words.
    pub fn message(&self) -> (s: String)
        ensures
            s@ == self@.words(),
    {
        match self {
            PfError::ReadConfig => "failed to read /etc/pf.conf".to_string(),
            PfError::WriteTemp => "failed to write temp pf config".to_string(),
            PfError::RunMain => "failed to run pfctl -f for main config".to_string(),
            PfError::SpawnAnchor => "failed to spawn pfctl for anchor rules".to_string(),
            PfError::WriteAnchor => "failed to write anchor rules to pfctl".to_string(),
            PfError::WaitAnchor => "failed to wait for pfctl".to_string(),
            PfError::RunEnable => "failed to run pfctl -e".to_string(),
            PfError::RunFlush => "failed to run pfctl -a zq -F all".to_string(),
            PfError::RunRestore => "failed to restore /etc/pf.conf".to_string(),
            PfError::Refused { command, stderr } => {
                let mut s = command.command_line().to_string();
                s.append(" failed: ");
                s.append(stderr.as_str());
                s
            },
        }
    }
}

/// How far the loading of rules has come.
#[derive(Debug, Clone, Copy, PartialEq, Eq, Structural)]
pub enum LoadPhase {
    /// Reading the system's rules.
    Reading,
    /// Writing the extended rules to a file.
    Writing,
    /// Loading the extended rules.
    Main,
    /// Loading the anchor's rules.
    Anchor,
    /// Turning the packet filter on.
    Enabling,
    /// Done.
    Over,
}

/// What happened while loading rules.
#[derive(Debug)]
pub enum LoadEvent {
    ConfigRead { text: String },
    ConfigUnreadable,
    TempWritten,
    TempFailed,
    /// The control program ran.
    Ran { success: bool, stderr: Vec<u8> },
    /// It could not be started.
    NotRun,
    /// It took no input.
    InputFailed,
    /// Its end could not be waited for.
    WaitFailed,
}

/// What to do to load rules.
#[derive(Debug)]
pub enum LoadAction {
    /// Read the system's rules.
    ReadConfig,
    /// Write this text to the temporary file.
    WriteTemp { text: String },
    /// Call the control program.
    Run { command: Pfctl },
    /// Call the control program with this input.
    RunWith { command: Pfctl, input: String },
    /// The rules are loaded.
    Done,
    /// Stop with an error.
    Fail { error: PfError },
    /// Nothing new: what is under way goes on.
    Wait,
}

/// The contents of a `LoadAction`.
#[verifier::ext_equal]
pub enum LoadActionView {
    ReadConfig,
    WriteTemp { text: Seq<char> },
    Run { command: Pfctl },
    RunWith { command: Pfctl, input: Seq<char> },
    Done,
    Fail { error: PfErrorView },
    Wait,
}

impl View for LoadAction {
    type V = LoadActionView;

    open spec fn view(&self) -> LoadActionView {
        match self {
            LoadAction::ReadConfig => LoadActionView::ReadConfig,
            LoadAction::WriteTemp { text } => LoadActionView::WriteTemp { text: text@ },
            LoadAction::Run { command } => LoadActionView::Run { command: *command },
            LoadAction::RunWith { command, input } => LoadActionView::RunWith {
                command: *command,
                input: input@,
            },
            LoadAction::Done => LoadActionView::Done,
            LoadAction::Fail { error } => LoadActionView::Fail { error: error@ },
            LoadAction::Wait => LoadActionView::Wait,
        }
    }
}

/// The next thing to do, and whether the temporary file goes before it.
#[derive(Debug)]
pub struct LoadStep {
    pub remove_temp: bool,
    pub action: LoadAction,
}

/// The contents of a `LoadStep`.
#[verifier::ext_equal]
pub struct LoadStepView {
    pub remove_temp: bool,
    pub action: LoadActionView,
}

impl View for LoadStep {
    type V = LoadStepView;

    open spec fn view(&self) -> LoadStepView {
        LoadStepView { remove_temp: self.remove_temp, action: self.action@ }
    }
}

/// The contents of a `RuleLoad`.
#[verifier::ext_equal]
pub struct RuleLoadView {
    pub port: u16,
    pub excluded_uid: u32,
    pub phase: LoadPhase,
}

/// The loading of rules.
#[derive(Debug)]
pub struct RuleLoad {
    port: u16,
    excluded_uid: u32,
    phase: LoadPhase,
}

impl View for RuleLoad {
    type V = RuleLoadView;

    closed spec fn view(&self) -> RuleLoadView {
        RuleLoadView { port: self.port, excluded_uid: self.excluded_uid, phase: self.phase }
    }
}

/// The end with an error.
pub open spec fn load_failing(error: PfErrorView) -> (LoadPhase, LoadActionView) {
    (LoadPhase::Over, LoadActionView::Fail { error })
}

/// What follows a call of the control program in a phase, what it reported read
/// as text. A packet filter that was on already counts as turned on.
pub open spec fn after_run(l: RuleLoadView, success: bool, stderr: Seq<char>) -> (
    LoadPhase,
    LoadActionView,
) {
    match l.phase {
        LoadPhase::Main => if success {
            (
                LoadPhase::Anchor,
                LoadActionView::RunWith {
                    command: Pfctl::LoadAnchor,
                    input: anchor_rules(l.port, l.excluded_uid),
                },
            )
        } else {
            load_failing(PfErrorView::Refused { command: Pfctl::LoadMain, stderr })
        },
        LoadPhase::Anchor => if success {
            (LoadPhase::Enabling, LoadActionView::Run { command: Pfctl::Enable })
        } else {
            load_failing(PfErrorView::Refused { command: Pfctl::LoadAnchor, stderr })
        },
        LoadPhase::Enabling => if success || contains_text(stderr, "already enabled"@) {
            (LoadPhase::Over, LoadActionView::Done)
        } else {
            load_failing(PfErrorView::Refused { command: Pfctl::Enable, stderr })
        },
        phase => (phase, LoadActionView::Wait),
    }
}

/// The phase after an event, and what to do then. An event that does not belong
/// to the phase changes nothing.
pub open spec fn load_next(l: RuleLoadView, event: LoadEvent) -> (LoadPhase, LoadActionView) {
    match (l.phase, event) {
        (LoadPhase::Reading, LoadEvent::ConfigRead { text }) => (
            LoadPhase::Writing,
            LoadActionView::WriteTemp { text: main_rules(text@) },
        ),
        (LoadPhase::Reading, LoadEvent::ConfigUnreadable) => load_failing(PfErrorView::ReadConfig),
        (LoadPhase::Writing, LoadEvent::TempWritten) => (
            LoadPhase::Main,
            LoadActionView::Run { command: Pfctl::LoadMain },
        ),
        (LoadPhase::Writing, LoadEvent::TempFailed) => load_failing(PfErrorView::WriteTemp),
        (LoadPhase::Main, LoadEvent::NotRun) => load_failing(PfErrorView::RunMain),
        (LoadPhase::Anchor, LoadEvent::NotRun) => load_failing(PfErrorView::SpawnAnchor),
        (LoadPhase::Anchor, LoadEvent::InputFailed) => load_failing(PfErrorView::WriteAnchor),
        (LoadPhase::Anchor, LoadEvent::WaitFailed) => load_failing(PfErrorView::WaitAnchor),
        (LoadPhase::Enabling, LoadEvent::NotRun) => load_failing(PfErrorView::RunEnable),
        (_, LoadEvent::Ran { success, stderr }) => after_run(l, success, lossy_text(stderr@)),
        (phase, _) => (phase, LoadActionView::Wait),
    }
}

/// The temporary file goes once the control program has run on it.
pub open spec fn drops_temp(l: RuleLoadView, event: LoadEvent) -> bool {
    l.phase is Main && event is Ran
}

/// How the loading begins.
pub open spec fn load_first(port: u16, excluded_uid: u32) -> (RuleLoadView, LoadActionView) {
    (
        RuleLoadView { port, excluded_uid, phase: LoadPhase::Reading },
        LoadActionView::ReadConfig,
    )
}

/// Begins to load rules that redirect web traffic to `port`, except what the
/// user `excluded_uid` sends.
pub fn load_rules(port: u16, excluded_uid: u32) -> (r: (RuleLoad, LoadAction))
    ensures
        (r.0@, r.1@) == load_first(port, excluded_uid),
        r.0@ == (RuleLoadView { port, excluded_uid, phase: LoadPhase::Reading }),
        r.1@ == LoadActionView::ReadConfig,
{
    (RuleLoad { port, excluded_uid, phase: LoadPhase::Reading }, LoadAction::ReadConfig)
}

impl RuleLoad {
    /// Goes on to a phase.
    fn enter(&mut self, phase: LoadPhase, action: LoadAction) -> (a: LoadAction)
        ensures
            final(self)@ == (RuleLoadView { phase, ..old(self)@ }),
            a@ == action@,
    {
        self.phase = phase;
        action
    }

    /// Goes on after the control program ran and its report was read as text.
    pub fn judge_run(&mut self, success: bool, stderr: String) -> (action: LoadAction)
        ensures
            ({
                let (phase, a) = after_run(old(self)@, success, stderr@);
                &&& final(self)@ == (RuleLoadView { phase, ..old(self)@ })
                &&& action@ == a
            }),
    {
        match self.phase {
            LoadPhase::Main => {
                if success {
                    let input = write_anchor_rules(self.port, self.excluded_uid);
                    self.enter(
                        LoadPhase::Anchor,
                        LoadAction::RunWith { command: Pfctl::LoadAnchor, input },
                    )
                } else {
                    let error = PfError::Refused { command: Pfctl::LoadMain, stderr };
                    self.enter(LoadPhase::Over, LoadAction::Fail { error })
                }
            },
            LoadPhase::Anchor => {
                if success {
                    self.enter(LoadPhase::Enabling, LoadAction::Run { command: Pfctl::Enable })
                } else {
                    let error = PfError::Refused { command: Pfctl::LoadAnchor, stderr };
                    self.enter(LoadPhase::Over, LoadAction::Fail { error })
                }
            },
            LoadPhase::Enabling => {
                if success || text_contains(stderr.as_str(), "already enabled") {
                    self.enter(LoadPhase::Over, LoadAction::Done)
                } else {
                    let error = PfError::Refused { command: Pfctl::Enable, stderr };
                    self.enter(LoadPhase::Over, LoadAction::Fail { error })
                }
            },
            _ => LoadAction::Wait,
        }
    }

    /// Takes note of what happened and says what to do next.
    pub fn step(&mut self, event: LoadEvent) -> (step: LoadStep)
        ensures
            ({
                let (phase, a) = load_next(old(self)@, event);
                &&& final(self)@ == (RuleLoadView { phase, ..old(self)@ })
                &&& step@ == (LoadStepView {
                    remove_temp: drops_temp(old(self)@, event),
                    action: a,
                })
            }),
    {
        let mut remove_temp: bool = false;
        let action = match (self.phase, event) {
            (LoadPhase::Reading, LoadEvent::ConfigRead { text }) => {
                let text = main_config(text.as_str());
                self.enter(LoadPhase::Writing, LoadAction::WriteTemp { text })
            },
            (LoadPhase::Reading, LoadEvent::ConfigUnreadable) => self.enter(
                LoadPhase::Over,
                LoadAction::Fail { error: PfError::ReadConfig },
            ),
            (LoadPhase::Writing, LoadEvent::TempWritten) => self.enter(
                LoadPhase::Main,
                LoadAction::Run { command: Pfctl::LoadMain },
            ),
            (LoadPhase::Writing, LoadEvent::TempFailed) => self.enter(
                LoadPhase::Over,
                LoadAction::Fail { error: PfError::WriteTemp },
            ),
            (LoadPhase::Main, LoadEvent::NotRun) => self.enter(
                LoadPhase::Over,
                LoadAction::Fail { error: PfError::RunMain },
            ),
            (LoadPhase::Anchor, LoadEvent::NotRun) => self.enter(
                LoadPhase::Over,
                LoadAction::Fail { error: PfError::SpawnAnchor },
            ),
            (LoadPhase::Anchor, LoadEvent::InputFailed) => self.enter(
                LoadPhase::Over,
                LoadAction::Fail { error: PfError::WriteAnchor },
            ),
            (LoadPhase::Anchor, LoadEvent::WaitFailed) => self.enter(
                LoadPhase::Over,
                LoadAction::Fail { error: PfError::WaitAnchor },
            ),
            (LoadPhase::Enabling, LoadEvent::NotRun) => self.enter(
                LoadPhase::Over,
                LoadAction::Fail { error: PfError::RunEnable },
            ),
            (phase, LoadEvent::Ran { success, stderr }) => {
                if phase == LoadPhase::Main {
                    remove_temp = true;
                }
                let text = decode_lossy(stderr.as_slice());
                self.judge_run(success, text)
            },
            _ => LoadAction::Wait,
        };
        LoadStep { remove_temp, action }
    }
}

/// How far the unloading of rules has come.
#[derive(Debug, Clone, Copy, PartialEq, Eq, Structural)]
pub enum UnloadPhase {
    /// Removing the anchor's rules.
    Flushing,
    /// Loading the system's own rules again.
    Restoring,
    /// Done.
    Over,
}

/// What happened while unloading rules.
#[derive(Debug)]
pub enum UnloadEvent {
    /// The control program ran.
    Ran { success: bool, stderr: Vec<u8> },
    /// It could not be started.
    NotRun,
}

/// What to do to unload rules.
#[derive(Debug)]
pub enum UnloadAction {
    /// Call the control program.
    Run { command: Pfctl },
    /// The rules are unloaded. A warning may be left.
    Done { warning: Option<String> },
    /// Stop with an error.
    Fail { error: PfError },
    /// Nothing new: what is under way goes on.
    Wait,
}

/// The contents of an `UnloadAction`.
#[verifier::ext_equal]
pub enum UnloadActionView {
    Run { command: Pfctl },
    Done { warning: Option<Seq<char>> },
    Fail { error: PfErrorView },
    Wait,
}

impl View for UnloadAction {
    type V = UnloadActionView;

    open spec fn view(&self) -> UnloadActionView {
        match self {
            UnloadAction::Run { command } => UnloadActionView::Run { command: *command },
            UnloadAction::Done { warning } => UnloadActionView::Done {
                warning: match warning {
                    Some(w) => Some(w@),
                    None => None,
                },
            },
            UnloadAction::Fail { error } => UnloadActionView::Fail { error: error@ },
            UnloadAction::Wait => UnloadActionView::Wait,
        }
    }
}

/// The unloading of rules.
#[derive(Debug)]
pub struct RuleUnload {
    phase: UnloadPhase,
}

/// The warning that the system's own rules could not be loaded again.
pub open spec fn restore_warning(stderr: Seq<char>) -> Seq<char> {
    "warning: pfctl -f /etc/pf.conf returned: "@ + stderr
}

/// What follows a call of the control program in a phase, what it reported read
/// as text. An anchor that does not exist counts as flushed, and a failure to
/// restore is no more than a warning.
pub open spec fn after_unload_run(phase: UnloadPhase, success: bool, stderr: Seq<char>) -> (
    UnloadPhase,
    UnloadActionView,
) {
    match phase {
        UnloadPhase::Flushing => if success || contains_text(stderr, "No such"@) {
            (UnloadPhase::Restoring, UnloadActionView::Run { command: Pfctl::Restore })
        } else {
            (
                UnloadPhase::Over,
                UnloadActionView::Fail {
                    error: PfErrorView::Refused { command: Pfctl::Flush, stderr },
                },
            )
        },
        UnloadPhase::Restoring => (
            UnloadPhase::Over,
            UnloadActionView::Done {
                warning: if success {
                    None
                } else {
                    Some(restore_warning(stderr))
                },
            },
        ),
        UnloadPhase::Over => (phase, UnloadActionView::Wait),
    }
}

/// The phase after an event, and what to do then.
pub open spec fn unload_next(phase: UnloadPhase, event: UnloadEvent) -> (
    UnloadPhase,
    UnloadActionView,
) {
    match event {
        UnloadEvent::Ran { success, stderr } => after_unload_run(
            phase,
            success,
            lossy_text(stderr@),
        ),
        UnloadEvent::NotRun => match phase {
            UnloadPhase::Flushing => (
                UnloadPhase::Over,
                UnloadActionView::Fail { error: PfErrorView::RunFlush },
            ),
            UnloadPhase::Restoring => (
                UnloadPhase::Over,
                UnloadActionView::Fail { error: PfErrorView::RunRestore },
            ),
            UnloadPhase::Over => (phase, UnloadActionView::Wait),
        },
    }
}

/// How the unloading begins.
pub open spec fn unload_first() -> (UnloadPhase, UnloadActionView) {
    (UnloadPhase::Flushing, UnloadActionView::Run { command: Pfctl::Flush })
}

/// Begins to unload the rules and to restore the system's own.
pub fn unload_rules() -> (r: (RuleUnload, UnloadAction))
    ensures
        (r.0.phase(), r.1@) == unload_first(),
        r.0.phase() == UnloadPhase::Flushing,
        r.1@ == (UnloadActionView::Run { command: Pfctl::Flush }),
{
    (RuleUnload { phase: UnloadPhase::Flushing }, UnloadAction::Run { command: Pfctl::Flush })
}

impl RuleUnload {
    /// How far the unloading has come.
    pub closed spec fn phase(&self) -> UnloadPhase {
        self.phase
    }

    /// Goes on after the control program ran and its report was read as text.
    pub fn judge_run(&mut self, success: bool, stderr: String) -> (action: UnloadAction)
        ensures
            ({
                let (phase, a) = after_unload_run(old(self).phase(), success, stderr@);
                &&& final(self).phase() == phase
                &&& action@ == a
            }),
    {
        match self.phase {
            UnloadPhase::Flushing => {
                if success || text_contains(stderr.as_str(), "No such") {
                    self.phase = UnloadPhase::Restoring;
                    UnloadAction::Run { command: Pfctl::Restore }
                } else {
                    self.phase = UnloadPhase::Over;
                    UnloadAction::Fail { error: PfError::Refused { command: Pfctl::Flush, stderr } }
                }
            },
            UnloadPhase::Restoring => {
                self.phase = UnloadPhase::Over;
                if success {
                    UnloadAction::Done { warning: None }
                } else {
                    let mut s = "warning: pfctl -f /etc/pf.conf returned: ".to_string();
                    s.append(stderr.as_str());
                    UnloadAction::Done { warning: Some(s) }
                }
            },
            UnloadPhase::Over => UnloadAction::Wait,
        }
    }

    /// Takes note of what happened and says what to do next.
    pub fn step(&mut self, event: UnloadEvent) -> (action: UnloadAction)
        ensures
            ({
                let (phase, a) = unload_next(old(self).phase(), event);
                &&& final(self).phase() == phase
                &&& action@ == a
            }),
    {
        match event {
            UnloadEvent::Ran { success, stderr } => {
                let text = decode_lossy(stderr.as_slice());
                self.judge_run(success, text)
            },
            UnloadEvent::NotRun => {
                let phase = self.phase;
                self.phase = UnloadPhase::Over;
                match phase {
                    UnloadPhase::Flushing => UnloadAction::Fail { error: PfError::RunFlush },
                    UnloadPhase::Restoring => UnloadAction::Fail { error: PfError::RunRestore },
                    UnloadPhase::Over => UnloadAction::Wait,
                }
            },
        }
    }
}

/// Some line of `text` is not blank.
pub open spec fn shows_rules(text: Seq<char>) -> bool {
    exists|i: int| 0 <= i < lines_of(text).len() && trimmed(#[trigger] lines_of(text)[i]).len() > 0
}

/// Whether the text shows any rules.
pub fn lists_rules(text: &str) -> (b: bool)
    ensures
        b == shows_rules(text@),
{
    let cs = chars_of(text);
    let lines = split_lines(cs.as_slice());
    for i in 0..lines.len()
        invariant
            texts(lines@) == lines_of(text@),
            forall|j: int| 0 <= j < i ==> trimmed(#[trigger] lines_of(text@)[j]).len() == 0,
    {
        assert(texts(lines@)[i as int] == lines@[i as int]@);
        if trim(lines[i].as_slice()).len() > 0 {
            return true;
        }
    }
    false
}

/// The anchor holds rules, going by what the control program shows, if anything.
pub open spec fn holds_rules(shown: Option<Seq<u8>>) -> bool {
    match shown {
        Some(data) => shows_rules(lossy_text(data)),
        None => false,
    }
}

/// Whether the anchor holds rules, going by what the control program shows;
/// `None` where it could not be run.
pub fn is_loaded(shown: Option<&[u8]>) -> (b: bool)
    ensures
        shown matches Some(data) ==> b == holds_rules(Some(data@)),
        shown is None ==> b == holds_rules(None),
        b == (match shown {
            Some(data) => shows_rules(lossy_text(data@)),
            None => false,
        }),
{
    match shown {
        Some(data) => {
            let text = decode_lossy(data);
            lists_rules(text.as_str())
        },
        None => false,
    }
}

/// The two places lie between the first line and the end.
proof fn lemma_places(lines: Seq<Seq<char>>)
    ensures
        1 <= Reference::Rdr.place(lines) <= lines.len() + 1,
        1 <= Reference::Anchor.place(lines) <= lines.len() + 1,
{
    lemma_last_line(Reference::Rdr, lines);
    lemma_last_line(Reference::Anchor, lines);
}

/// The extended rules are the system's rules and the two references, nothing
/// else: without the references they are the system's, in their order.
pub proof fn law_extension_keeps_every_line(lines: Seq<Seq<char>>)
    ensures
        extended(lines).len() == lines.len() + 2,
        exists|i: int, j: int|
            {
                &&& 0 <= i < extended(lines).len()
                &&& 0 <= j <= lines.len()
                &&& #[trigger] extended(lines)[i] == RDR_LINE@
                &&& #[trigger] extended(lines).remove(i)[j] == ANCHOR_LINE@
                &&& extended(lines).remove(i).remove(j) == lines
            },
{
    lemma_places(lines);
    let e = extended(lines);
    let r = up_to_end(Reference::Rdr.place(lines), lines);
    let a = up_to_end(Reference::Anchor.place(lines), lines);
    if Reference::Rdr.place(lines) <= Reference::Anchor.place(lines) {
        assert(e[r] == RDR_LINE@);
        assert(e.remove(r)[a] == ANCHOR_LINE@);
        assert(e.remove(r).remove(a) =~= lines);
    } else {
        assert(e[r + 1] == RDR_LINE@);
        assert(e.remove(r + 1)[a] == ANCHOR_LINE@);
        assert(e.remove(r + 1).remove(a) =~= lines);
    }
}

/// Where the system's rules refer to anchors in one of the two ways, this
/// anchor's reference of that kind follows the last such line directly.
pub proof fn law_references_follow_their_kind(kind: Reference, lines: Seq<Seq<char>>, i: int)
    requires
        0 <= i < lines.len(),
        kind.marks(lines[i]),
        forall|j: int| i < j < lines.len() ==> !kind.marks(#[trigger] lines[j]),
    ensures
        exists|k: int|
            0 <= k < extended(lines).len() - 1 && #[trigger] extended(lines)[k] == lines[i]
                && extended(lines)[k + 1] == kind.text(),
{
    lemma_places(lines);
    lemma_last_line(Reference::Rdr, lines);
    lemma_last_line(Reference::Anchor, lines);
    lemma_kinds_differ(lines[i]);
    let e = extended(lines);
    let r = Reference::Rdr.place(lines);
    let a = Reference::Anchor.place(lines);
    assert(kind.place(lines) == i + 1);
    if r <= a {
        assert(kind == Reference::Rdr ==> e[i] == lines[i] && e[i + 1] == RDR_LINE@);
        assert(kind == Reference::Anchor ==> e[i + 1] == lines[i] && e[i + 2] == ANCHOR_LINE@);
    } else {
        assert(kind == Reference::Rdr ==> e[i + 1] == lines[i] && e[i + 2] == RDR_LINE@);
        assert(kind == Reference::Anchor ==> e[i] == lines[i] && e[i + 1] == ANCHOR_LINE@);
    }
}

/// No line refers to an anchor in both ways.
proof fn lemma_kinds_differ(line: Seq<char>)
    ensures
        !(Reference::Rdr.marks(line) && Reference::Anchor.marks(line)),
{
    reveal_strlit("rdr-anchor");
    reveal_strlit("anchor ");
    let t = trimmed(line);
    if Reference::Rdr.marks(line) && Reference::Anchor.marks(line) {
        assert(t.subrange(0, "rdr-anchor"@.len() as int)[0] == 'r');
        assert(t.subrange(0, "anchor "@.len() as int)[0] == 'a');
    }
}

/// `s` holds no line feed and does not end with a carriage return.
pub open spec fn plain_line(s: Seq<char>) -> bool {
    &&& forall|i: int| 0 <= i < s.len() ==> s[i] != '\n'
    &&& s.len() > 0 ==> s.last() != '\r'
}

proof fn lemma_joined_reads_back(lines: Seq<Seq<char>>)
    requires
        forall|i: int| 0 <= i < lines.len() ==> plain_line(#[trigger] lines[i]),
    ensures
        lines_of(joined(lines)) == lines,
        joined(lines).len() == 0 || joined(lines).last() == '\n',
    decreases lines.len(),
{
    if lines.len() > 0 {
        let front = lines.drop_last();
        assert forall|i: int| 0 <= i < front.len() implies plain_line(#[trigger] front[i]) by {
            assert(front[i] == lines[i]);
        }
        lemma_joined_reads_back(front);
        let last = lines.last();
        assert(plain_line(last));
        law_lines_concatenate(joined(front), last.push('\n'));
        lemma_single_line(last);
        assert(without_cr(last) == last);
        assert(front + seq![last] == lines);
    }
}

/// No line of a text holds a line feed.
proof fn lemma_lines_hold_no_feed(s: Seq<char>)
    ensures
        forall|i: int, j: int|
            0 <= i < lines_of(s).len() && 0 <= j < lines_of(s)[i].len()
                ==> #[trigger] lines_of(s)[i][j] != '\n',
    decreases s.len(),
{
    if s.len() > 0 {
        lemma_position(s, '\n');
        let k = position(s, '\n') as int;
        if k < s.len() {
            let rest = s.subrange(k + 1, s.len() as int);
            lemma_lines_hold_no_feed(rest);
            assert forall|i: int, j: int|
                0 <= i < lines_of(s).len() && 0 <= j < lines_of(s)[i].len() implies #[trigger] lines_of(
                s,
            )[i][j] != '\n' by {
                if i > 0 {
                    assert(lines_of(s)[i] == lines_of(rest)[i - 1]);
                } else {
                    assert(lines_of(s)[0][j] == s[j]);
                }
            }
        }
    }
}

/// Read line by line, the main rules are the system's lines extended, provided
/// no line of the system's ends with a carriage return.
pub proof fn law_main_rules_read_back(base: Seq<char>)
    requires
        forall|i: int|
            0 <= i < lines_of(base).len() && (#[trigger] lines_of(base)[i]).len() > 0
                ==> lines_of(base)[i].last() != '\r',
    ensures
        lines_of(main_rules(base)) == extended(lines_of(base)),
{
    let lines = lines_of(base);
    let e = extended(lines);
    lemma_lines_hold_no_feed(base);
    lemma_places(lines);
    reveal_strlit("rdr-anchor \"zq\"");
    reveal_strlit("anchor \"zq\"");
    assert(plain_line(RDR_LINE@));
    assert(plain_line(ANCHOR_LINE@));
    assert forall|i: int| 0 <= i < lines.len() implies plain_line(#[trigger] lines[i]) by {
        assert forall|j: int| 0 <= j < lines[i].len() implies lines[i][j] != '\n' by {}
    }
    assert forall|i: int| 0 <= i < e.len() implies plain_line(#[trigger] e[i]) by {
        let r = up_to_end(Reference::Rdr.place(lines), lines);
        let a = up_to_end(Reference::Anchor.place(lines), lines);
        if Reference::Rdr.place(lines) <= Reference::Anchor.place(lines) {
            assert(e[i] == RDR_LINE@ || e[i] == ANCHOR_LINE@ || (i < r && e[i] == lines[i]) || (
            i <= a && e[i] == lines[i - 1]) || e[i] == lines[i - 2]);
        } else {
            assert(e[i] == RDR_LINE@ || e[i] == ANCHOR_LINE@ || (i < a && e[i] == lines[i]) || (
            i <= r && e[i] == lines[i - 1]) || e[i] == lines[i - 2]);
        }
    }
    lemma_joined_reads_back(e);
}

/// The loading of rules after an event.
pub open spec fn load_after(l: RuleLoadView, event: LoadEvent) -> RuleLoadView {
    RuleLoadView { phase: load_next(l, event).0, ..l }
}

/// The loading of rules after events, first to last.
pub open spec fn load_through(l: RuleLoadView, events: Seq<LoadEvent>) -> RuleLoadView
    decreases events.len(),
{
    if events.len() == 0 {
        l
    } else {
        load_after(load_through(l, events.drop_last()), events.last())
    }
}

/// The control program ran and succeeded.
pub open spec fn is_success(event: LoadEvent) -> bool {
    event matches LoadEvent::Ran { success, .. } && success
}

/// How often the control program ran and succeeded.
pub open spec fn successes(events: Seq<LoadEvent>) -> nat
    decreases events.len(),
{
    if events.len() == 0 {
        0
    } else {
        successes(events.drop_last()) + if is_success(events.last()) {
            1nat
        } else {
            0nat
        }
    }
}

proof fn lemma_successes(l: RuleLoadView, events: Seq<LoadEvent>)
    requires
        l.phase == LoadPhase::Reading,
    ensures
        load_through(l, events).phase == LoadPhase::Anchor ==> successes(events) >= 1,
        load_through(l, events).phase == LoadPhase::Enabling ==> successes(events) >= 2,
    decreases events.len(),
{
    if events.len() > 0 {
        lemma_successes(l, events.drop_last());
    }
}

/// Rules count as loaded only after the control program has accepted the main
/// rules and the anchor's, and the packet filter is on.
pub proof fn law_loaded_after_both_loads(
    l: RuleLoadView,
    events: Seq<LoadEvent>,
    event: LoadEvent,
)
    requires
        l.phase == LoadPhase::Reading,
        load_next(load_through(l, events), event).1 == LoadActionView::Done,
    ensures
        successes(events) >= 2,
        event matches LoadEvent::Ran { success, stderr } && (success || contains_text(
            lossy_text(stderr@),
            "already enabled"@,
        )),
{
    lemma_successes(l, events);
}

/// Unloading never fails for want of the anchor: where there is none, the
/// system's rules are restored all the same.
pub proof fn law_missing_anchor_counts_as_flushed(stderr: Seq<char>)
    requires
        contains_text(stderr, "No such"@),
    ensures
        after_unload_run(UnloadPhase::Flushing, false, stderr) == after_unload_run(
            UnloadPhase::Flushing,
            true,
            stderr,
        ),
{
}

} // verus!
