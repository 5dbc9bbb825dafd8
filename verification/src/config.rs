//! The configuration file: `key = value` lines and `#` comments.

use vstd::prelude::*;
use vstd::slice::slice_subrange;
use vstd::string::StringExecFns;

use crate::text::{
    chars_are, chars_of, cut, decimal, find_char, law_decimal_reads_back, law_lines_concatenate,
    lemma_position_at, lemma_single_line, lemma_trimmed_fixed, lines_of, parse_unsigned,
    split_lines, string_of, texts, trim, trim_end, trim_start, trimmed, unsigned, white_space,
    without_cr,
};
use crate::text_laws::{
    all_blank, digits, law_decimal_is_made_of_digits, law_every_text_can_be_trimmed,
    law_trimming_takes_the_blanks,
};

verus! {

/// Settings shared by the daemon and its clients.
#[derive(Debug)]
pub struct Config {
    /// Address of the upstream HTTP proxy.
    pub proxy_addr: String,
    /// Network interface for packet-filter rules.
    pub interface: String,
    /// Local port on which the transparent proxy listens.
    pub proxy_port: u16,
    /// Unix socket between the daemon and its clients.
    pub socket_path: String,
}

/// The contents of a `Config`.
#[verifier::ext_equal]
pub struct ConfigView {
    pub proxy_addr: Seq<char>,
    pub interface: Seq<char>,
    pub proxy_port: u16,
    pub socket_path: Seq<char>,
}

impl View for Config {
    type V = ConfigView;

    open spec fn view(&self) -> ConfigView {
        ConfigView {
            proxy_addr: self.proxy_addr@,
            interface: self.interface@,
            proxy_port: self.proxy_port,
            socket_path: self.socket_path@,
        }
    }
}

impl Clone for Config {
    fn clone(&self) -> (r: Self)
        ensures
            r@ == self@,
    {
        Config {
            proxy_addr: self.proxy_addr.clone(),
            interface: self.interface.clone(),
            proxy_port: self.proxy_port,
            socket_path: self.socket_path.clone(),
        }
    }
}

/// The settings in force where the file says nothing.
pub open spec fn default_config() -> ConfigView {
    ConfigView {
        proxy_addr: "127.0.0.1:8080"@,
        interface: "en0"@,
        proxy_port: 8888,
        socket_path: "/tmp/zq-tui.sock"@,
    }
}

/// The port that `value` names.
pub open spec fn port_value(value: Seq<char>) -> Option<nat> {
    unsigned(value, u16::MAX as nat)
}

/// `c` after the assignment of `value` to `key`. An unknown key and a port
/// that is no number change nothing.
pub open spec fn assigned(c: ConfigView, key: Seq<char>, value: Seq<char>) -> ConfigView {
    if key == "proxy_addr"@ {
        ConfigView { proxy_addr: value, ..c }
    } else if key == "interface"@ {
        ConfigView { interface: value, ..c }
    } else if key == "proxy_port"@ {
        match port_value(value) {
            Some(p) => ConfigView { proxy_port: p as u16, ..c },
            None => c,
        }
    } else if key == "socket_path"@ {
        ConfigView { socket_path: value, ..c }
    } else {
        c
    }
}

/// The key and the value that a line assigns: none in a blank line, a comment
/// or a line without `=`.
pub open spec fn assignment(line: Seq<char>) -> Option<(Seq<char>, Seq<char>)> {
    let t = trimmed(line);
    if t.len() == 0 || t[0] == '#' {
        None
    } else {
        match cut(t, '=') {
            Some((k, v)) => Some((trimmed(k), trimmed(v))),
            None => None,
        }
    }
}

/// The key of some setting.
pub open spec fn is_setting(key: Seq<char>) -> bool {
    key == "proxy_addr"@ || key == "interface"@ || key == "proxy_port"@ || key == "socket_path"@
}

/// A line that sets nothing: it assigns nothing, or assigns to an unknown key,
/// or gives as a port what is none.
pub open spec fn is_idle(line: Seq<char>) -> bool {
    match assignment(line) {
        Some((k, v)) => !is_setting(k) || (k == "proxy_port"@ && port_value(v) is None),
        None => true,
    }
}

/// `c` after one line of the file.
pub open spec fn line_applied(c: ConfigView, line: Seq<char>) -> ConfigView {
    match assignment(line) {
        Some((k, v)) => assigned(c, k, v),
        None => c,
    }
}

/// `c` after the lines of the file, first to last.
pub open spec fn lines_applied(c: ConfigView, lines: Seq<Seq<char>>) -> ConfigView
    decreases lines.len(),
{
    if lines.len() == 0 {
        c
    } else {
        line_applied(lines_applied(c, lines.drop_last()), lines.last())
    }
}

/// The settings that a file with the contents `input` gives.
pub open spec fn parsed(input: Seq<char>) -> ConfigView {
    lines_applied(default_config(), lines_of(input))
}

impl Default for Config {
    fn default() -> (c: Self)
        ensures
            c@ == default_config(),
    {
        Config {
            proxy_addr: "127.0.0.1:8080".to_string(),
            interface: "en0".to_string(),
            proxy_port: 8888,
            socket_path: "/tmp/zq-tui.sock".to_string(),
        }
    }
}

/// The file that is written where there is none.
pub const DEFAULT_CONFIG: &'static str = "# zq configuration\nproxy_addr = 127.0.0.1:8080\ninterface = en0\nproxy_port = 8888\n# socket_path = /tmp/zq-tui.sock\n";

/// The path of the configuration file under a home directory.
pub open spec fn path_under(home: Seq<char>) -> Seq<char> {
    if home.len() == 0 || home.last() == '/' {
        home + ".zq/config"@
    } else {
        home + "/.zq/config"@
    }
}

/// The path of the configuration file; `None` where there is no home directory.
pub fn config_path(home: Option<&str>) -> (p: Option<String>)
    ensures
        (match p {
            Some(path) => home is Some && path_in(Some(home->0@)) == Some(path@),
            None => home is None && path_in(None) is None,
        }),
        (match home {
            Some(h) => p is Some && p->0@ == path_under(h@),
            None => p is None,
        }),
{
    match home {
        Some(h) => {
            let cs = chars_of(h);
            let mut s = h.to_string();
            if cs.len() == 0 || cs[cs.len() - 1] == '/' {
                s.append(".zq/config");
            } else {
                s.append("/.zq/config");
            }
            Some(s)
        },
        None => None,
    }
}

/// The path of the configuration file, if there is a home directory.
pub open spec fn path_in(home: Option<Seq<char>>) -> Option<Seq<char>> {
    match home {
        Some(h) => Some(path_under(h)),
        None => None,
    }
}

/// What was found in place of the configuration file.
pub enum ConfigFile {
    /// There is no home directory to hold one.
    NoHome,
    /// There is none yet.
    Missing,
    /// It cannot be read.
    Unreadable,
    /// Its contents.
    Contents(String),
}

/// The settings for what was found.
pub open spec fn settings_for(found: ConfigFile) -> ConfigView {
    match found {
        ConfigFile::Contents(text) => parsed(text@),
        _ => default_config(),
    }
}

/// A file is created for what was found.
pub open spec fn is_created_for(found: ConfigFile) -> bool {
    found is Missing
}

impl Config {
    /// The settings for what was found, and the text of the file to create.
    pub fn load(found: &ConfigFile) -> (r: (Config, Option<&'static str>))
        ensures
            r.0@ == settings_for(*found),
            r.1 is Some <==> is_created_for(*found),
            r.0@ == (match found {
                ConfigFile::Contents(text) => parsed(text@),
                _ => default_config(),
            }),
            found is Missing ==> r.1 is Some && r.1->0@ == DEFAULT_CONFIG@,
            !(found is Missing) ==> r.1 is None,
    {
        match found {
            ConfigFile::Contents(text) => (Config::parse(text.as_str()), None),
            ConfigFile::Missing => (Config::default(), Some(DEFAULT_CONFIG)),
            _ => (Config::default(), None),
        }
    }

    /// Assigns `value` to `key`.
    fn assign(&mut self, key: &[char], value: &[char])
        ensures
            final(self)@ == assigned(old(self)@, key@, value@),
    {
        if chars_are(key, "proxy_addr") {
            self.proxy_addr = string_of(value);
        } else if chars_are(key, "interface") {
            self.interface = string_of(value);
        } else if chars_are(key, "proxy_port") {
            if let Some(port) = parse_unsigned(value, u16::MAX as u32) {
                self.proxy_port = port as u16;
            }
        } else if chars_are(key, "socket_path") {
            self.socket_path = string_of(value);
        }
    }

    /// Applies one line of the file.
    fn apply_line(&mut self, line: &[char])
        ensures
            final(self)@ == line_applied(old(self)@, line@),
    {
        let t = trim(line);
        if t.len() == 0 || t[0] == '#' {
            return;
        }
        let i: usize = find_char(t, '=');
        if i < t.len() {
            let key = trim(slice_subrange(t, 0, i));
            let value = trim(slice_subrange(t, i + 1, t.len()));
            self.assign(key, value);
        }
    }

    /// Reads the settings from the contents of a file.
    pub fn parse(input: &str) -> (c: Self)
        ensures
            c@ == parsed(input@),
    {
        let cs = chars_of(input);
        let lines = split_lines(cs.as_slice());
        let ghost all = texts(lines@);
        let mut config = Config::default();
        for i in 0..lines.len()
            invariant
                all == texts(lines@),
                config@ == lines_applied(default_config(), all.take(i as int)),
        {
            config.apply_line(lines[i].as_slice());
            assert(all.take(i + 1).drop_last() == all.take(i as int));
            assert(all.take(i + 1).last() == lines@[i as int]@);
        }
        assert(all.take(all.len() as int) == all);
        config
    }
}

proof fn lemma_lines_applied_split(c: ConfigView, a: Seq<Seq<char>>, b: Seq<Seq<char>>)
    ensures
        lines_applied(c, a + b) == lines_applied(lines_applied(c, a), b),
    decreases b.len(),
{
    if b.len() == 0 {
        assert(a + b == a);
    } else {
        assert((a + b).drop_last() == a + b.drop_last());
        lemma_lines_applied_split(c, a, b.drop_last());
    }
}

/// A file is read from top to bottom: what follows a complete line applies to
/// the settings made so far.
pub proof fn law_read_top_to_bottom(a: Seq<char>, b: Seq<char>)
    requires
        a.len() == 0 || a.last() == '\n',
    ensures
        parsed(a + b) == lines_applied(parsed(a), lines_of(b)),
{
    law_lines_concatenate(a, b);
    lemma_lines_applied_split(default_config(), lines_of(a), lines_of(b));
}

/// A line that sets nothing, such as a comment, a blank line or a line with an
/// unknown key, can stand anywhere in a file without changing its meaning.
pub proof fn law_idle_lines_ignored(a: Seq<char>, line: Seq<char>, b: Seq<char>)
    requires
        a.len() == 0 || a.last() == '\n',
        forall|i: int| 0 <= i < line.len() ==> line[i] != '\n',
        is_idle(without_cr(line)),
    ensures
        parsed(a + line.push('\n') + b) == parsed(a + b),
{
    let l = line.push('\n');
    law_read_top_to_bottom(a + l, b);
    law_read_top_to_bottom(a, l);
    law_read_top_to_bottom(a, b);
    lemma_single_line(line);
    let c = parsed(a);
    let one = seq![without_cr(line)];
    assert(one.drop_last() == Seq::<Seq<char>>::empty());
    assert(lines_applied(c, one.drop_last()) == c);
    lemma_setting_keys_differ();
    assert(lines_applied(c, one) == c);
    assert((a + l).last() == '\n');
}

/// The port's key is none of the keys that come before it.
proof fn lemma_setting_keys_differ()
    ensures
        "proxy_port"@ != "proxy_addr"@,
        "proxy_port"@ != "interface"@,
{
    reveal_strlit("proxy_addr");
    reveal_strlit("interface");
    reveal_strlit("proxy_port");
    assert("proxy_addr"@[6] == 'a');
    assert("proxy_port"@[6] == 'p');
    assert("interface"@[0] == 'i');
    assert("proxy_port"@[0] == 'p');
}

/// A comment assigns nothing, whatever it says.
pub proof fn law_comments_assign_nothing(comment: Seq<char>)
    ensures
        assignment(seq!['#'] + comment) is None,
{
    let s = seq!['#'] + comment;
    assert(trim_start(s) == s);
    lemma_trim_end_keeps_first(s);
}

proof fn lemma_trim_end_keeps_first(s: Seq<char>)
    requires
        s.len() > 0,
        !white_space(s[0]),
    ensures
        trim_end(s).len() > 0,
        trim_end(s)[0] == s[0],
    decreases s.len(),
{
    if white_space(s.last()) {
        lemma_trim_end_keeps_first(s.drop_last());
    }
}

/// The line that assigns `value` to `key`.
pub open spec fn assignment_line(key: Seq<char>, value: Seq<char>) -> Seq<char> {
    key + seq![' ', '=', ' '] + value
}

/// A line written as `key = value` assigns that value to that key, provided
/// neither begins or ends with white space and the key could not be mistaken.
pub proof fn law_written_line_reads_back(key: Seq<char>, value: Seq<char>)
    requires
        key.len() > 0,
        key[0] != '#',
        forall|i: int| 0 <= i < key.len() ==> key[i] != '=',
        trimmed(key) == key,
        trimmed(value) == value,
    ensures
        assignment(assignment_line(key, value)) == Some((key, value)),
{
    let n = key.len() as int;
    let line = assignment_line(key, value);
    lemma_trimmed_fixed(key);
    lemma_trimmed_fixed(value);
    lemma_trimmed_fixed(line);
    let left = key.push(' ');
    assert(left.drop_last() == key);
    assert(trim_start(left) == left);
    assert(trim_end(left) == trim_end(key));
    assert(trim_end(key) == key);
    assert(trimmed(left) == key);
    assert(line[0] == key[0]);
    if value.len() > 0 {
        assert(line.last() == value.last());
        assert(trimmed(line) == line);
        lemma_position_at(line, '=', n + 1);
        assert(line.subrange(0, n + 1) == left);
        let right = line.subrange(n + 2, line.len() as int);
        assert(right == seq![' '] + value);
        assert(right.drop_first() == value);
        assert(trim_start(right) == trim_start(value));
        assert(trim_start(value) == value);
        assert(trimmed(right) == value);
    } else {
        let t = key + seq![' ', '='];
        assert(line.drop_last() == t);
        assert(trim_start(line) == line);
        assert(trim_end(line) == trim_end(t));
        assert(t.last() == '=');
        assert(trimmed(line) == t);
        lemma_position_at(t, '=', n + 1);
        assert(t.subrange(0, n + 1) == left);
        assert(t.subrange(n + 2, t.len() as int) == value);
    }
}

/// A port written in decimal reads back as itself.
pub proof fn law_port_reads_back(p: u16)
    ensures
        port_value(decimal(p as nat)) == Some(p as nat),
{
    law_decimal_reads_back(p as nat, u16::MAX as nat);
}

/// A line written into a file sets its setting to its value, whole and as it is,
/// and leaves every other setting as the lines before it made it.
pub proof fn law_written_settings_take_effect(a: Seq<char>, value: Seq<char>)
    requires
        a.len() == 0 || a.last() == '\n',
        trimmed(value) == value,
        forall|i: int| 0 <= i < value.len() ==> value[i] != '\n',
    ensures
        parsed(a + assignment_line("proxy_addr"@, value).push('\n')) == (ConfigView {
            proxy_addr: value,
            ..parsed(a)
        }),
        parsed(a + assignment_line("interface"@, value).push('\n')) == (ConfigView {
            interface: value,
            ..parsed(a)
        }),
        parsed(a + assignment_line("socket_path"@, value).push('\n')) == (ConfigView {
            socket_path: value,
            ..parsed(a)
        }),
{
    lemma_keys();
    lemma_written_setting(a, "proxy_addr"@, value);
    lemma_written_setting(a, "interface"@, value);
    lemma_written_setting(a, "socket_path"@, value);
}

/// A port written into a file becomes the port, every port that there is.
pub proof fn law_written_port_takes_effect(a: Seq<char>, p: u16)
    requires
        a.len() == 0 || a.last() == '\n',
    ensures
        parsed(a + assignment_line("proxy_port"@, decimal(p as nat)).push('\n')) == (ConfigView {
            proxy_port: p,
            ..parsed(a)
        }),
{
    let value = decimal(p as nat);
    lemma_keys();
    law_decimal_is_made_of_digits(p as nat);
    reveal_strlit("0123456789");
    assert forall|i: int| 0 <= i < value.len() implies value[i] != '\n' && !white_space(
        #[trigger] value[i],
    ) by {
        assert(digits().contains(value[i]));
    }
    lemma_trimmed_fixed(value);
    lemma_written_setting(a, "proxy_port"@, value);
    law_port_reads_back(p);
}

/// The four keys are plain words, and different ones.
proof fn lemma_keys()
    ensures
        plain_key("proxy_addr"@),
        plain_key("interface"@),
        plain_key("proxy_port"@),
        plain_key("socket_path"@),
        "proxy_port"@ != "proxy_addr"@,
        "proxy_port"@ != "interface"@,
        "socket_path"@ != "proxy_addr"@,
        "socket_path"@ != "interface"@,
        "socket_path"@ != "proxy_port"@,
        "interface"@ != "proxy_addr"@,
{
    lemma_setting_keys_differ();
    reveal_strlit("proxy_addr");
    reveal_strlit("interface");
    reveal_strlit("proxy_port");
    reveal_strlit("socket_path");
    assert("socket_path"@[0] == 's');
    assert("interface"@[0] == 'i');
    assert("proxy_addr"@[0] == 'p');
    assert("proxy_port"@[0] == 'p');
    lemma_trimmed_fixed("proxy_addr"@);
    lemma_trimmed_fixed("interface"@);
    lemma_trimmed_fixed("proxy_port"@);
    lemma_trimmed_fixed("socket_path"@);
}

/// A key that could not be mistaken.
spec fn plain_key(key: Seq<char>) -> bool {
    &&& key.len() > 0
    &&& key[0] != '#'
    &&& trimmed(key) == key
    &&& forall|i: int| 0 <= i < key.len() ==> key[i] != '=' && key[i] != '\n'
}

proof fn lemma_written_setting(a: Seq<char>, key: Seq<char>, value: Seq<char>)
    requires
        a.len() == 0 || a.last() == '\n',
        plain_key(key),
        trimmed(value) == value,
        forall|i: int| 0 <= i < value.len() ==> value[i] != '\n',
    ensures
        parsed(a + assignment_line(key, value).push('\n')) == assigned(parsed(a), key, value),
{
    let line = assignment_line(key, value);
    law_written_line_reads_back(key, value);
    law_read_top_to_bottom(a, line.push('\n'));
    lemma_trimmed_fixed(value);
    assert forall|i: int| 0 <= i < line.len() implies line[i] != '\n' by {
        if i < key.len() {
            assert(line[i] == key[i]);
        } else if i >= key.len() + 3 {
            assert(line[i] == value[i - key.len() - 3]);
        }
    }
    lemma_single_line(line);
    assert(without_cr(line) == line) by {
        if value.len() > 0 {
            assert(line.last() == value.last());
        } else {
            assert(line.last() == ' ');
        }
    }
    let one = seq![line];
    assert(one.drop_last() =~= Seq::<Seq<char>>::empty());
    reveal_with_fuel(lines_applied, 2);
    assert(lines_applied(parsed(a), one) == line_applied(parsed(a), line));
}

/// A file that says nothing leaves the settings at their defaults.
pub proof fn law_nothing_said_nothing_set()
    ensures
        parsed(Seq::empty()) == default_config(),
{
}

/// The file lies in one directory under the home directory, whether that is
/// written with a slash at its end or without.
pub proof fn law_file_lies_under_home(home: Seq<char>)
    requires
        home.len() > 0,
        home.last() != '/',
    ensures
        path_under(home) == home + "/.zq/config"@,
        path_under(home.push('/')) == path_under(home),
{
    reveal_strlit("/.zq/config");
    reveal_strlit(".zq/config");
    assert(home.push('/') + ".zq/config"@ =~= home + "/.zq/config"@);
}

/// The contents of a file are followed; without a readable file the defaults are in
/// force; and a file is created exactly where there is a place for one and none is
/// there.
pub proof fn law_files_are_followed(text: String, home: Seq<char>)
    ensures
        settings_for(ConfigFile::Contents(text)) == parsed(text@),
        settings_for(ConfigFile::NoHome) == default_config(),
        settings_for(ConfigFile::Missing) == default_config(),
        settings_for(ConfigFile::Unreadable) == default_config(),
        is_created_for(ConfigFile::Missing),
        !is_created_for(ConfigFile::NoHome),
        !is_created_for(ConfigFile::Unreadable),
        !is_created_for(ConfigFile::Contents(text)),
        path_in(Some(home)) == Some(path_under(home)),
        path_in(None) is None,
{
}

/// A line assigns what stands after its first `=` to what stands before it, both
/// trimmed. A comment, a blank line and a line without `=` assign nothing.
pub proof fn law_lines_assign_at_the_first_equals(
    before: Seq<char>,
    key: Seq<char>,
    value: Seq<char>,
    after: Seq<char>,
)
    requires
        all_blank(before),
        all_blank(after),
        forall|i: int| 0 <= i < key.len() ==> key[i] != '=',
        key.len() > 0 ==> !white_space(key[0]),
        value.len() > 0 ==> !white_space(value.last()),
    ensures
        key.len() == 0 || key[0] != '#' ==> assignment(before + (key + seq!['='] + value) + after)
            == Some((trimmed(key), trimmed(value))),
        key.len() > 0 && key[0] == '#' ==> assignment(before + (key + seq!['='] + value) + after)
            is None,
        assignment(key) is None,
        assignment(before) is None,
{
    let t = key + seq!['='] + value;
    if key.len() > 0 {
        assert(t[0] == key[0]);
    } else {
        assert(t[0] == '=');
    }
    if value.len() > 0 {
        assert(t.last() == value.last());
    } else {
        assert(t.last() == '=');
    }
    law_trimming_takes_the_blanks(before, t, after);
    lemma_position_at(t, '=', key.len() as int);
    assert(t.subrange(0, key.len() as int) =~= key);
    assert(t.subrange(key.len() as int + 1, t.len() as int) =~= value);
    law_every_text_can_be_trimmed(key);
    let (i, j) = choose|i: int, j: int|
        {
            &&& 0 <= i <= j <= key.len()
            &&& trimmed(key) == #[trigger] key.subrange(i, j)
            &&& all_blank(key.subrange(0, i))
            &&& all_blank(key.subrange(j, key.len() as int))
        };
    let k = key.subrange(i, j);
    assert forall|n: int| 0 <= n < k.len() implies k[n] != '=' by {
        assert(k[n] == key[i + n]);
    }
    lemma_position_at(k, '=', k.len() as int);
    law_trimming_takes_the_blanks(before, Seq::empty(), Seq::empty());
    assert(before + Seq::<char>::empty() + Seq::<char>::empty() =~= before);
}

/// The contents of a configuration are those of its fields.
pub proof fn law_settings_show_their_fields(c: Config)
    ensures
        c@.proxy_addr == c.proxy_addr@,
        c@.interface == c.interface@,
        c@.proxy_port == c.proxy_port,
        c@.socket_path == c.socket_path@,
{
}

/// A comment on a line of its own sets nothing.
proof fn lemma_comment(a: Seq<char>, comment: Seq<char>)
    requires
        a.len() == 0 || a.last() == '\n',
        comment.len() > 0,
        comment[0] == '#',
        comment.last() != '\r',
        forall|i: int| 0 <= i < comment.len() ==> comment[i] != '\n',
    ensures
        parsed(a + comment.push('\n')) == parsed(a),
{
    let rest = comment.skip(1);
    assert(comment =~= seq!['#'] + rest);
    law_comments_assign_nothing(rest);
    assert(without_cr(comment) == comment);
    law_idle_lines_ignored(a, comment, Seq::empty());
    assert(a + comment.push('\n') + Seq::<char>::empty() =~= a + comment.push('\n'));
    assert(a + Seq::<char>::empty() =~= a);
}

/// The file that is written where there is none says what holds without one: the
/// proxy on port 8080 of this machine, the interface `en0`, port 8888 and the
/// socket `/tmp/zq-tui.sock`.
pub proof fn law_new_file_says_the_defaults()
    ensures
        parsed(DEFAULT_CONFIG@) == parsed(Seq::empty()),
        parsed(DEFAULT_CONFIG@).proxy_addr == "127.0.0.1:8080"@,
        parsed(DEFAULT_CONFIG@).interface == "en0"@,
        parsed(DEFAULT_CONFIG@).proxy_port == 8888,
        parsed(DEFAULT_CONFIG@).socket_path == "/tmp/zq-tui.sock"@,
{
    reveal_strlit(
        "# zq configuration\nproxy_addr = 127.0.0.1:8080\ninterface = en0\nproxy_port = 8888\n# socket_path = /tmp/zq-tui.sock\n",
    );
    reveal_strlit("# zq configuration");
    reveal_strlit("# socket_path = /tmp/zq-tui.sock");
    reveal_strlit("127.0.0.1:8080");
    reveal_strlit("en0");
    reveal_strlit("proxy_addr");
    reveal_strlit("interface");
    reveal_strlit("proxy_port");
    let a0 = Seq::<char>::empty();
    let a1 = a0 + "# zq configuration"@.push('\n');
    let a2 = a1 + assignment_line("proxy_addr"@, "127.0.0.1:8080"@).push('\n');
    let a3 = a2 + assignment_line("interface"@, "en0"@).push('\n');
    let a4 = a3 + assignment_line("proxy_port"@, decimal(8888)).push('\n');
    let a5 = a4 + "# socket_path = /tmp/zq-tui.sock"@.push('\n');
    reveal_with_fuel(decimal, 4);
    assert(decimal(8888) =~= seq!['8', '8', '8', '8']);
    assert(a5 =~= DEFAULT_CONFIG@);
    lemma_trimmed_fixed("127.0.0.1:8080"@);
    lemma_trimmed_fixed("en0"@);
    lemma_comment(a0, "# zq configuration"@);
    law_written_settings_take_effect(a1, "127.0.0.1:8080"@);
    law_written_settings_take_effect(a2, "en0"@);
    law_written_port_takes_effect(a3, 8888);
    lemma_comment(a4, "# socket_path = /tmp/zq-tui.sock"@);
}

} // verus!
