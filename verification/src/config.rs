//! Configuration: the command-line arguments, the `.jlink-rtt.env` project
//! file, and how the two are merged with the defaults into the settings of
//! a run (command line first, then the file, then the defaults).
use vstd::prelude::*;
use crate::numbers::{self, decimal_string};
use crate::paths::{self, file_name_of, hash_text, join_path, parent_of, path_is_at_or_below, paths_equal};
use crate::text::{
    self, chars_eq, chars_of, find_from, push_str, slice_of, split_lines, string_from_chars,
    trim_chars,
};

verus! {

/// The command-line arguments of the tool.
#[derive(Debug, Clone)]
pub struct CliArgs {
    /// `--config`: an explicit `.jlink-rtt.env` file.
    pub config: Option<String>,
    /// `--project-root`: the directory the default config search stops at.
    pub project_root: Option<String>,
    /// `--print-config`: print the resolved settings and exit.
    pub print_config: bool,
    /// `--init`: write `.jlink-rtt.env` with the current settings and exit.
    pub init: bool,
    pub jlink_gdb_server: Option<String>,
    pub gdb: Option<String>,
    pub nc: Option<String>,
    pub device: Option<String>,
    /// `--if`: the J-Link interface.
    pub jlink_if: Option<String>,
    pub speed: Option<String>,
    pub serial: Option<String>,
    pub host: Option<String>,
    pub gdb_port: Option<String>,
    pub rtt_port: Option<String>,
    /// `--timeout`: seconds to wait for the ports.
    pub timeout: Option<String>,
    pub log: Option<String>,
    pub gdb_log: Option<String>,
    /// `--out`: a file that receives the RTT output too.
    pub out: Option<String>,
    /// `--match`: the text whose appearance ends the capture.
    pub match_pattern: Option<String>,
    pub match_timeout: Option<String>,
    pub no_reset: bool,
    pub no_resume: bool,
    pub stop: bool,
    pub search_device: Option<String>,
}

/// The settings of a run.
#[derive(Debug, Clone)]
pub struct AppConfig {
    pub config_file: Option<String>,
    pub project_root: String,
    pub jlink_gdb_server: Option<String>,
    pub gdb: Option<String>,
    pub nc: Option<String>,
    pub host: String,
    pub device: Option<String>,
    pub jlink_if: String,
    pub speed: String,
    pub jlink_serial: Option<String>,
    pub gdb_port: String,
    pub rtt_port: String,
    pub ready_timeout: String,
    pub log_file: String,
    pub gdb_log_file: String,
    pub rtt_out_file: Option<String>,
    pub rtt_match_pattern: Option<String>,
    pub rtt_match_timeout: String,
    /// "0" or "1".
    pub reset_target: String,
    /// "0" or "1".
    pub resume_target: String,
    pub print_config: bool,
    pub init: bool,
    pub stop: bool,
    pub search_device: Option<String>,
}

pub open spec fn opt_view(o: Option<String>) -> Option<Seq<char>> {
    match o {
        Some(s) => Some(s@),
        None => None,
    }
}

// ---------------------------------------------------------------------------
// The settings of a project file
// ---------------------------------------------------------------------------

/// The map of settings that a sequence of assignments leaves: a later
/// assignment to a key replaces an earlier one.
pub open spec fn settings_map(s: Seq<(Seq<char>, Seq<char>)>) -> Map<Seq<char>, Seq<char>>
    decreases s.len(),
{
    if s.len() == 0 {
        Map::empty()
    } else {
        settings_map(s.drop_last()).insert(s.last().0, s.last().1)
    }
}

/// The settings read from a project file, in file order.
#[derive(Debug)]
pub struct ConfigMap {
    pub entries: Vec<(String, String)>,
}

impl ConfigMap {
    /// The assignments, in file order.
    pub open spec fn assignments(&self) -> Seq<(Seq<char>, Seq<char>)> {
        self.entries@.map_values(|e: (String, String)| (e.0@, e.1@))
    }
}

impl View for ConfigMap {
    type V = Map<Seq<char>, Seq<char>>;

    open spec fn view(&self) -> Map<Seq<char>, Seq<char>> {
        settings_map(self.assignments())
    }
}

proof fn lemma_settings_map_skip(s: Seq<(Seq<char>, Seq<char>)>, n: int, k: Seq<char>)
    requires
        0 <= n <= s.len(),
        forall|m: int| n <= m < s.len() ==> (#[trigger] s[m]).0 != k,
    ensures
        settings_map(s).contains_key(k) == settings_map(s.take(n)).contains_key(k),
        settings_map(s).contains_key(k) ==> settings_map(s)[k] == settings_map(s.take(n))[k],
    decreases s.len(),
{
    if s.len() > n {
        let t = s.drop_last();
        assert(t.take(n) =~= s.take(n));
        assert forall|m: int| n <= m < t.len() implies (#[trigger] t[m]).0 != k by {
            assert(t[m] == s[m]);
        }
        lemma_settings_map_skip(t, n, k);
    } else {
        assert(s.take(n) =~= s);
    }
}

impl ConfigMap {
    /// An empty map.
    pub fn new() -> (m: ConfigMap)
        ensures
            m.assignments() == Seq::<(Seq<char>, Seq<char>)>::empty(),
            m@ == Map::<Seq<char>, Seq<char>>::empty(),
    {
        let m = ConfigMap { entries: Vec::new() };
        proof {
            assert(m.assignments() =~= Seq::<(Seq<char>, Seq<char>)>::empty());
        }
        m
    }

    /// The value last assigned to `key`, if any.
    pub fn get(&self, key: &str) -> (r: Option<String>)
        ensures
            r matches Some(v) ==> self@.contains_key(key@) && self@[key@] == v@,
            r is None ==> !self@.contains_key(key@),
    {
        let ghost s = self.assignments();
        let kv = chars_of(key);
        let mut j = self.entries.len();
        while j > 0
            invariant
                j <= self.entries@.len(),
                s == self.assignments(),
                kv@ == key@,
                forall|m: int| j <= m < s.len() ==> (#[trigger] s[m]).0 != key@,
            decreases j,
        {
            j = j - 1;
            let ek = chars_of(self.entries[j].0.as_str());
            if chars_eq(&ek, &kv) {
                proof {
                    lemma_settings_map_skip(s, j + 1, key@);
                    assert(s.take(j + 1).drop_last() =~= s.take(j as int));
                }
                return Some(self.entries[j].1.clone());
            }
        }
        proof {
            lemma_settings_map_skip(s, 0, key@);
            assert(s.take(0) =~= Seq::<(Seq<char>, Seq<char>)>::empty());
        }
        None
    }
}

/// Whether `k` is a valid setting name: a letter or `_` followed by
/// letters, digits and `_`, all ASCII.
pub open spec fn valid_key(k: Seq<char>) -> bool {
    &&& k.len() > 0
    &&& (text::ascii_alpha(k[0]) || k[0] == '_')
    &&& forall|i: int| 0 <= i < k.len() ==> text::ascii_alnum(#[trigger] k[i]) || k[i] == '_'
}

/// A value without one pair of matching surrounding quotes, single or double.
pub open spec fn unquote(v: Seq<char>) -> Seq<char> {
    if v.len() >= 2 && ((v[0] == '"' && v.last() == '"') || (v[0] == '\'' && v.last() == '\'')) {
        v.subrange(1, v.len() - 1)
    } else {
        v
    }
}

/// What one line of a project file says: `Some(None)` for a blank or
/// comment line, `Some(Some((key, value)))` for an assignment, `None` for
/// a line that is neither.
pub open spec fn line_setting(line: Seq<char>) -> Option<Option<(Seq<char>, Seq<char>)>> {
    let t = text::trim_text(line);
    if t.len() == 0 || t[0] == '#' {
        Some(None)
    } else {
        match text::first_occurrence(t, seq!['='], 0) {
            None => None,
            Some(pos) => {
                let key = text::trim_text(t.subrange(0, pos));
                let value = text::trim_text(t.subrange(pos + 1, t.len() as int));
                if valid_key(key) {
                    Some(Some((key, unquote(value))))
                } else {
                    None
                }
            },
        }
    }
}

/// The assignments of the first `n` lines, or the index of the first line
/// among them that is neither blank, a comment nor an assignment.
pub open spec fn settings_upto(lines: Seq<Seq<char>>, n: int) -> Result<Seq<(Seq<char>, Seq<char>)>, int>
    decreases n,
{
    if n <= 0 || n > lines.len() {
        Ok(Seq::empty())
    } else {
        match settings_upto(lines, n - 1) {
            Err(i) => Err(i),
            Ok(s) => match line_setting(lines[n - 1]) {
                None => Err(n - 1),
                Some(None) => Ok(s),
                Some(Some(kv)) => Ok(s.push(kv)),
            },
        }
    }
}

proof fn lemma_settings_error_persists(lines: Seq<Seq<char>>, n: int, m: int)
    requires
        1 <= n <= m <= lines.len(),
        settings_upto(lines, n) is Err,
    ensures
        settings_upto(lines, m) == settings_upto(lines, n),
    decreases m - n,
{
    if m > n {
        lemma_settings_error_persists(lines, n, m - 1);
    }
}

proof fn lemma_settings_keys_valid(lines: Seq<Seq<char>>, n: int)
    ensures
        settings_upto(lines, n) matches Ok(s) ==> forall|i: int|
            0 <= i < s.len() ==> valid_key(#[trigger] s[i].0),
    decreases n,
{
    if n > 0 && n <= lines.len() {
        lemma_settings_keys_valid(lines, n - 1);
        match settings_upto(lines, n - 1) {
            Ok(prev) => match line_setting(lines[n - 1]) {
                Some(Some(kv)) => {
                    let s = prev.push(kv);
                    assert forall|i: int| 0 <= i < s.len() implies valid_key(#[trigger] s[i].0) by {
                        if i < prev.len() {
                            assert(s[i] == prev[i]);
                        }
                    }
                },
                _ => {},
            },
            Err(_) => {},
        }
    }
}

/// The assignments of a project file, or the index of its first bad line.
pub open spec fn config_settings(content: Seq<char>) -> Result<Seq<(Seq<char>, Seq<char>)>, int> {
    settings_upto(text::lines_of(content), text::lines_of(content).len() as int)
}

/// A line of a project file that is neither blank, a comment, nor a
/// `KEY=VALUE` assignment with a valid key.
#[derive(Debug)]
pub struct ConfigLineError {
    /// The line's number, counting from 1.
    pub line_number: usize,
    /// The line without surrounding whitespace.
    pub line: String,
}

fn valid_key_chars(k: &Vec<char>) -> (b: bool)
    ensures
        b == valid_key(k@),
{
    if k.len() == 0 {
        return false;
    }
    let c0 = k[0];
    if !(('a' <= c0 && c0 <= 'z') || ('A' <= c0 && c0 <= 'Z') || c0 == '_') {
        return false;
    }
    let mut i: usize = 0;
    while i < k.len()
        invariant
            i <= k@.len(),
            forall|m: int| 0 <= m < i ==> text::ascii_alnum(#[trigger] k@[m]) || k@[m] == '_',
        decreases k.len() - i,
    {
        let c = k[i];
        if !(('a' <= c && c <= 'z') || ('A' <= c && c <= 'Z') || ('0' <= c && c <= '9') || c == '_') {
            return false;
        }
        i = i + 1;
    }
    true
}

fn unquote_chars(v: Vec<char>) -> (r: Vec<char>)
    ensures
        r@ == unquote(v@),
{
    let n = v.len();
    if n >= 2 && ((v[0] == '"' && v[n - 1] == '"') || (v[0] == '\'' && v[n - 1] == '\'')) {
        slice_of(&v, 1, n - 1)
    } else {
        v
    }
}

/// Reads one line of a project file.
pub fn parse_config_line(line: &Vec<char>) -> (r: Option<Option<(String, String)>>)
    ensures
        r matches Some(Some(kv)) ==> line_setting(line@) == Some(Some((kv.0@, kv.1@))),
        r matches Some(None) ==> line_setting(line@) == Some(None::<(Seq<char>, Seq<char>)>),
        r is None ==> line_setting(line@) is None,
{
    let t = trim_chars(line);
    if t.len() == 0 || t[0] == '#' {
        return Some(None);
    }
    let mut eq: Vec<char> = Vec::new();
    eq.push('=');
    proof {
        assert(eq@ =~= seq!['=']);
    }
    match find_from(&t, &eq, 0) {
        None => None,
        Some(pos) => {
            proof {
                text::lemma_first_occurrence_found(t@, eq@, 0);
                assert(text::first_occurrence(t@, eq@, 0) == Some(pos as int));
                assert(pos + 1 <= t@.len());
                assert(t@.len() == t.len());
            }
            let k = slice_of(&t, 0, pos);
            let key = trim_chars(&k);
            let v = slice_of(&t, pos + 1, t.len());
            let value = trim_chars(&v);
            if valid_key_chars(&key) {
                let value = unquote_chars(value);
                Some(Some((string_from_chars(&key), string_from_chars(&value))))
            } else {
                None
            }
        },
    }
}

/// Reads the settings of a project file: blank lines and lines that start
/// with `#` are skipped; every other line must be `KEY=VALUE`, whose key
/// and value lose surrounding whitespace and whose value loses one pair of
/// matching quotes. The first line that is neither is an error.
pub fn parse_config(content: &str) -> (r: Result<ConfigMap, ConfigLineError>)
    ensures
        r matches Ok(m) ==> config_settings(content@) == Ok::<Seq<(Seq<char>, Seq<char>)>, int>(
            m.assignments(),
        ),
        r matches Err(e) ==> {
            &&& 1 <= e.line_number <= text::lines_of(content@).len()
            &&& config_settings(content@) == Err::<Seq<(Seq<char>, Seq<char>)>, int>(e.line_number - 1)
            &&& e.line@ == text::trim_text(text::lines_of(content@)[e.line_number - 1])
        },
{
    let cv = chars_of(content);
    let lines = split_lines(&cv);
    let ghost ls = text::lines_of(content@);
    let mut m = ConfigMap::new();
    let mut i: usize = 0;
    while i < lines.len()
        invariant
            i <= lines@.len(),
            ls == text::lines_of(content@),
            lines@.len() == ls.len(),
            forall|k: int| 0 <= k < lines@.len() ==> (#[trigger] lines@[k])@ == ls[k],
            settings_upto(ls, i as int) == Ok::<Seq<(Seq<char>, Seq<char>)>, int>(m.assignments()),
        decreases lines.len() - i,
    {
        match parse_config_line(&lines[i]) {
            None => {
                let t = trim_chars(&lines[i]);
                proof {
                    lemma_settings_error_persists(ls, i + 1, ls.len() as int);
                }
                return Err(ConfigLineError { line_number: i + 1, line: string_from_chars(&t) });
            },
            Some(None) => {},
            Some(Some(kv)) => {
                let ghost before = m.assignments();
                m.entries.push(kv);
                proof {
                    assert(m.assignments() =~= before.push((kv.0@, kv.1@)));
                }
            },
        }
        i = i + 1;
    }
    Ok(m)
}

/// The message for a bad line of the project file at `path`.
pub open spec fn config_line_message(path: Seq<char>, line_number: nat, line: Seq<char>) -> Seq<char> {
    "[ERROR] Invalid config line in "@ + path + ":"@ + numbers::numeral(line_number, 10) + ": "@
        + line + "\n[INFO] Fix or remove the line, then re-run. Valid format: KEY=VALUE"@
}

/// The message that reports a bad line of the project file at `path`.
pub fn config_line_error_message(path: &str, e: &ConfigLineError) -> (r: String)
    ensures
        r@ == config_line_message(path@, e.line_number as nat, e.line@),
{
    let mut v: Vec<char> = Vec::new();
    push_str(&mut v, "[ERROR] Invalid config line in ");
    push_str(&mut v, path);
    push_str(&mut v, ":");
    let n = decimal_string(e.line_number as u64);
    push_str(&mut v, n.as_str());
    push_str(&mut v, ": ");
    push_str(&mut v, e.line.as_str());
    push_str(&mut v, "\n[INFO] Fix or remove the line, then re-run. Valid format: KEY=VALUE");
    string_from_chars(&v)
}

/// Reads the project file at `path` with the given content, reporting a
/// bad line as the tool does.
pub fn load_config_text(path: &str, content: &str) -> (r: Result<ConfigMap, String>)
    ensures
        r matches Ok(m) ==> config_settings(content@) == Ok::<Seq<(Seq<char>, Seq<char>)>, int>(
            m.assignments(),
        ),
        r matches Err(msg) ==> exists|i: int|
            0 <= i < text::lines_of(content@).len() && config_settings(content@) == Err::<
                Seq<(Seq<char>, Seq<char>)>,
                int,
            >(i) && msg@ == config_line_message(
                path@,
                (i + 1) as nat,
                text::trim_text(text::lines_of(content@)[i]),
            ),
{
    match parse_config(content) {
        Ok(m) => Ok(m),
        Err(e) => {
            let msg = config_line_error_message(path, &e);
            proof {
                let i = e.line_number - 1;
                assert(config_settings(content@) == Err::<Seq<(Seq<char>, Seq<char>)>, int>(i));
            }
            Err(msg)
        },
    }
}


// ---------------------------------------------------------------------------
// Paths of the project
// ---------------------------------------------------------------------------

/// The prefix `\\?\UNC\` of a Windows verbatim UNC path.
pub open spec fn verbatim_unc_prefix() -> Seq<char> {
    seq!['\\', '\\', '?', '\\', 'U', 'N', 'C', '\\']
}

/// The prefix `\\?\` of a Windows verbatim path.
pub open spec fn verbatim_prefix() -> Seq<char> {
    seq!['\\', '\\', '?', '\\']
}

/// A path without the Windows verbatim prefix: `\\?\UNC\server\share`
/// becomes `\\server\share` and `\\?\D:\dir` becomes `D:\dir`;
/// elsewhere than on Windows a path is kept as it is.
pub open spec fn cleaned_path(path: Seq<char>, on_windows: bool) -> Seq<char> {
    if !on_windows {
        path
    } else if text::has_prefix(path, verbatim_unc_prefix()) {
        seq!['\\', '\\'] + path.subrange(8, path.len() as int)
    } else if text::has_prefix(path, verbatim_prefix()) {
        path.subrange(4, path.len() as int)
    } else {
        path
    }
}

/// Strips the Windows verbatim prefixes `\\?\UNC\` and `\\?\` that
/// canonical paths carry there, to make paths readable.
pub fn clean_windows_path(path: String, on_windows: bool) -> (r: String)
    ensures
        r@ == cleaned_path(path@, on_windows),
{
    if !on_windows {
        return path;
    }
    let p = chars_of(path.as_str());
    let mut unc: Vec<char> = Vec::new();
    unc.push('\\');
    unc.push('\\');
    unc.push('?');
    unc.push('\\');
    let ghost short = unc@;
    unc.push('U');
    unc.push('N');
    unc.push('C');
    unc.push('\\');
    proof {
        assert(unc@ =~= verbatim_unc_prefix());
        assert(short =~= verbatim_prefix());
    }
    if text::starts_with(&p, &unc) {
        let mut v: Vec<char> = Vec::new();
        v.push('\\');
        v.push('\\');
        text::push_range(&mut v, &p, 8, p.len());
        proof {
            assert(v@ =~= seq!['\\', '\\'] + p@.subrange(8, p@.len() as int));
        }
        return string_from_chars(&v);
    }
    let verb = slice_of(&unc, 0, 4);
    proof {
        assert(verb@ =~= verbatim_prefix());
    }
    if text::starts_with(&p, &verb) {
        return text::string_of_range(&p, 4, p.len());
    }
    path
}

/// The name of the project's directory for temporary files, given the
/// project directory's name (if it has one) and the hash of its path: the
/// name with every character that is not alphanumeric made `_` ("unknown"
/// without a name), and the hash in lowercase hexadecimal.
pub open spec fn temp_dir_name_from(file_name: Option<Seq<char>>, root_hash: u64) -> Seq<char> {
    let name = match file_name {
        Some(n) => n,
        None => "unknown"@,
    };
    "jlink-rtt-"@ + text::underscore_non_alnum(name) + "-"@ + numbers::numeral(root_hash as nat, 16)
}

/// The name of the project's directory for temporary files.
pub open spec fn project_temp_dir_name_of(project_root: Seq<char>) -> Seq<char> {
    temp_dir_name_from(paths::path_file_name(project_root), paths::default_hash(project_root))
}

/// The name of the project's directory for temporary files, given the
/// project directory's name and the hash of its path.
pub fn temp_dir_name_for(file_name: Option<&str>, root_hash: u64) -> (r: String)
    ensures
        r@ == temp_dir_name_from(
            match file_name {
                Some(n) => Some(n@),
                None => None,
            },
            root_hash,
        ),
{
    let mut v: Vec<char> = Vec::new();
    push_str(&mut v, "jlink-rtt-");
    match file_name {
        Some(n) => text::push_underscored(&mut v, n),
        None => text::push_underscored(&mut v, "unknown"),
    }
    push_str(&mut v, "-");
    let h = numbers::hex_string(root_hash);
    push_str(&mut v, h.as_str());
    string_from_chars(&v)
}

/// The name of the project's directory for temporary files: the name of
/// the project directory and the hash of its path.
pub fn project_temp_dir_name(project_root: &str) -> (r: String)
    ensures
        r@ == project_temp_dir_name_of(project_root@),
{
    let name = file_name_of(project_root);
    let hash = hash_text(project_root);
    match name {
        Some(n) => temp_dir_name_for(Some(n.as_str()), hash),
        None => temp_dir_name_for(None, hash),
    }
}

/// The project's directory for temporary files, under the system's
/// directory for temporary files `system_temp`.
pub open spec fn project_temp_dir_of(system_temp: Seq<char>, project_root: Seq<char>) -> Seq<char> {
    paths::path_join(system_temp, project_temp_dir_name_of(project_root))
}

/// The project's directory for temporary files, under the system's
/// directory for temporary files.
pub fn get_project_temp_dir(system_temp: &str, project_root: &str) -> (r: String)
    ensures
        r@ == project_temp_dir_of(system_temp@, project_root@),
{
    let name = project_temp_dir_name(project_root);
    join_path(system_temp, name.as_str())
}

/// The message for a working directory outside the project root.
pub open spec fn outside_root_message(project_root: Seq<char>) -> Seq<char> {
    "[ERROR] Current directory is outside project root: "@ + project_root
        + "\n[INFO] Run from within the project, or pass --project-root <DIR>."@
}

/// Checks that the working directory is the project root or lies below it.
pub fn check_cwd_in_project(cwd: &str, project_root: &str) -> (r: Result<(), String>)
    ensures
        r is Ok <==> paths::path_starts_with(cwd@, project_root@),
        r matches Err(e) ==> e@ == outside_root_message(project_root@),
{
    cwd_check_outcome(path_is_at_or_below(cwd, project_root), project_root)
}

/// The outcome of the working-directory check, given whether the working
/// directory lies at or below the project root.
pub fn cwd_check_outcome(inside: bool, project_root: &str) -> (r: Result<(), String>)
    ensures
        r is Ok <==> inside,
        r matches Err(e) ==> e@ == outside_root_message(project_root@),
{
    if inside {
        Ok(())
    } else {
        let mut v: Vec<char> = Vec::new();
        push_str(&mut v, "[ERROR] Current directory is outside project root: ");
        push_str(&mut v, project_root);
        push_str(&mut v, "\n[INFO] Run from within the project, or pass --project-root <DIR>.");
        Err(string_from_chars(&v))
    }
}

/// The message for a `--project-root` that is not a directory.
pub open spec fn invalid_root_message(root: Seq<char>) -> Seq<char> {
    "[ERROR] Invalid project root: "@ + root
        + ".\n[INFO] Pass a valid directory with --project-root <DIR>."@
}

/// Which directory is the project root: the `--project-root` directory when
/// given (an error when it is not a directory), else the top of the git
/// work tree, else the working directory.
pub open spec fn project_root_choice(
    explicit: Option<Seq<char>>,
    explicit_dir: Option<Seq<char>>,
    git_root: Option<Seq<char>>,
    cwd: Seq<char>,
    on_windows: bool,
) -> Result<Seq<char>, Seq<char>> {
    match explicit {
        Some(root) => match explicit_dir {
            Some(d) => Ok(cleaned_path(d, on_windows)),
            None => Err(invalid_root_message(root)),
        },
        None => match git_root {
            Some(g) => Ok(cleaned_path(g, on_windows)),
            None => Ok(cwd),
        },
    }
}

/// Picks the project root. `explicit` is `--project-root`; `explicit_dir`
/// its canonical path when that is a directory; `git_root` the canonical
/// top of the git work tree, if there is one; `cwd` the working directory.
pub fn resolve_project_root(
    explicit: &Option<String>,
    explicit_dir: Option<String>,
    git_root: Option<String>,
    cwd: &str,
    on_windows: bool,
) -> (r: Result<String, String>)
    ensures
        r matches Ok(p) ==> project_root_choice(
            opt_view(*explicit),
            opt_view(explicit_dir),
            opt_view(git_root),
            cwd@,
            on_windows,
        ) == Ok::<Seq<char>, Seq<char>>(p@),
        r matches Err(e) ==> project_root_choice(
            opt_view(*explicit),
            opt_view(explicit_dir),
            opt_view(git_root),
            cwd@,
            on_windows,
        ) == Err::<Seq<char>, Seq<char>>(e@),
{
    match explicit {
        Some(root) => match explicit_dir {
            Some(d) => Ok(clean_windows_path(d, on_windows)),
            None => {
                let mut v: Vec<char> = Vec::new();
                push_str(&mut v, "[ERROR] Invalid project root: ");
                push_str(&mut v, root.as_str());
                push_str(&mut v, ".\n[INFO] Pass a valid directory with --project-root <DIR>.");
                Err(string_from_chars(&v))
            },
        },
        None => match git_root {
            Some(g) => Ok(clean_windows_path(g, on_windows)),
            None => Ok(cwd.to_owned()),
        },
    }
}

/// The top of the git work tree that `git rev-parse --show-toplevel`
/// printed, if it printed one.
pub fn git_root_from_output(stdout: &str) -> (r: Option<String>)
    ensures
        r matches Some(p) ==> p@ == text::trim_text(stdout@) && p@.len() > 0,
        r is None ==> text::trim_text(stdout@).len() == 0,
{
    let v = chars_of(stdout);
    let t = trim_chars(&v);
    if t.len() == 0 {
        None
    } else {
        Some(string_from_chars(&t))
    }
}

/// The message for a `--config` file that does not exist.
pub open spec fn config_not_found_message_of(path: Seq<char>) -> Seq<char> {
    "[ERROR] Config file not found: "@ + path
        + ".\n[INFO] Check the --config path, or run without --config to auto-discover .jlink-rtt.env."@
}

/// The message for a `--config` file that does not exist.
pub fn config_not_found_message(path: &str) -> (r: String)
    ensures
        r@ == config_not_found_message_of(path@),
{
    let mut v: Vec<char> = Vec::new();
    push_str(&mut v, "[ERROR] Config file not found: ");
    push_str(&mut v, path);
    push_str(
        &mut v,
        ".\n[INFO] Check the --config path, or run without --config to auto-discover .jlink-rtt.env.",
    );
    string_from_chars(&v)
}

/// The directories searched for a project file: the working directory and
/// its ancestors, up to the project root, or up to the top of the file
/// system when the root is not an ancestor.
pub open spec fn config_search_dirs(dir: Seq<char>, project_root: Seq<char>) -> Seq<Seq<char>>
    decreases dir.len(),
{
    seq![dir] + if paths::path_eq(dir, project_root) {
        Seq::empty()
    } else {
        match paths::path_parent(dir) {
            Some(p) => if p.len() < dir.len() {
                config_search_dirs(p, project_root)
            } else {
                Seq::empty()
            },
            None => Seq::empty(),
        }
    }
}

/// The file name of a project file.
pub open spec fn config_file_name() -> Seq<char> {
    ".jlink-rtt.env"@
}

/// The paths where a project file is looked for, nearest first.
pub open spec fn config_candidates_of(cwd: Seq<char>, project_root: Seq<char>) -> Seq<Seq<char>> {
    config_search_dirs(cwd, project_root).map_values(
        |d: Seq<char>| paths::path_join(d, config_file_name()),
    )
}

/// The paths where a project file is looked for when `--config` is not
/// given: `.jlink-rtt.env` in the working directory, then in each parent,
/// up to the project root.
pub fn default_config_candidates(cwd: &str, project_root: &str) -> (r: Vec<String>)
    ensures
        r@.len() == config_candidates_of(cwd@, project_root@).len(),
        forall|k: int|
            0 <= k < r@.len() ==> (#[trigger] r@[k])@ == config_candidates_of(cwd@, project_root@)[k],
{
    let mut r: Vec<String> = Vec::new();
    let mut current = cwd.to_owned();
    let ghost mut acc: Seq<Seq<char>> = Seq::empty();
    loop
        invariant
            config_search_dirs(cwd@, project_root@) == acc + config_search_dirs(current@, project_root@),
            r@.len() == acc.len(),
            forall|k: int|
                0 <= k < r@.len() ==> (#[trigger] r@[k])@ == paths::path_join(acc[k], config_file_name()),
        decreases current@.len(),
    {
        let candidate = join_path(current.as_str(), ".jlink-rtt.env");
        proof {
            acc = acc.push(current@);
        }
        r.push(candidate);
        if paths_equal(current.as_str(), project_root) {
            proof {
                assert(config_search_dirs(current@, project_root@) =~= seq![current@]);
                assert(config_search_dirs(cwd@, project_root@) =~= acc);
                assert(r@.len() == config_candidates_of(cwd@, project_root@).len());
            }
            return r;
        }
        match parent_of(current.as_str()) {
            Some(p) => {
                proof {
                    assert(config_search_dirs(current@, project_root@) == seq![current@]
                        + config_search_dirs(p@, project_root@));
                    assert(acc.drop_last() + config_search_dirs(current@, project_root@) =~= acc
                        + config_search_dirs(p@, project_root@));
                }
                current = p;
            },
            None => {
                proof {
                    assert(config_search_dirs(current@, project_root@) =~= seq![current@]);
                    assert(config_search_dirs(cwd@, project_root@) =~= acc);
                }
                return r;
            },
        }
    }
}

/// The first candidate that is a file, given for each candidate whether it
/// is one: the project file the tool loads when `--config` is not given.
pub fn find_default_config(candidates: &Vec<String>, is_file: &Vec<bool>) -> (r: Option<String>)
    requires
        candidates@.len() == is_file@.len(),
    ensures
        r matches Some(p) ==> exists|k: int|
            0 <= k < candidates@.len() && is_file@[k] && p@ == candidates@[k]@ && forall|j: int|
                0 <= j < k ==> !is_file@[j],
        r is None ==> forall|k: int| 0 <= k < is_file@.len() ==> !is_file@[k],
{
    text::first_marked(candidates, is_file)
}

/// The paths looked at for the project file: the `--config` path alone
/// when it is given, else `.jlink-rtt.env` in the working directory and
/// each parent up to the project root, nearest first.
pub open spec fn config_lookup_paths(config: Option<Seq<char>>, cwd: Seq<char>, project_root: Seq<char>) -> Seq<
    Seq<char>,
> {
    match config {
        Some(p) => seq![p],
        None => config_candidates_of(cwd, project_root),
    }
}

/// The first step of settling a run's settings once the project root is
/// known: the working directory must be the project root or lie below
/// it, else the run stops with an error before any project file is
/// looked at or read; then the paths to look at for the project file.
pub fn config_lookup(args: &CliArgs, cwd: &str, project_root: &str) -> (r: Result<Vec<String>, String>)
    ensures
        r is Err <==> !paths::path_starts_with(cwd@, project_root@),
        r matches Err(m) ==> m@ == outside_root_message(project_root@),
        r matches Ok(ps) ==> ps@.map_values(|s: String| s@) == config_lookup_paths(
            opt_view(args.config),
            cwd@,
            project_root@,
        ),
{
    match check_cwd_in_project(cwd, project_root) {
        Err(m) => Err(m),
        Ok(()) => match &args.config {
            Some(p) => {
                let mut ps: Vec<String> = Vec::new();
                ps.push(p.clone());
                proof {
                    assert(ps@.map_values(|s: String| s@) =~= seq![p@]);
                }
                Ok(ps)
            },
            None => {
                let ps = default_config_candidates(cwd, project_root);
                proof {
                    assert(ps@.map_values(|s: String| s@) =~= config_candidates_of(cwd@, project_root@));
                }
                Ok(ps)
            },
        },
    }
}

/// The project file to read, given for each path looked at whether it is
/// a file: the `--config` path when it is one, else an error; without
/// `--config`, the nearest candidate that is a file, or none.
pub fn choose_config(config: &Option<String>, paths: &Vec<String>, is_file: &Vec<bool>) -> (r: Result<
    Option<String>,
    String,
>)
    requires
        paths@.len() == is_file@.len(),
    ensures
        config matches Some(p) ==> {
            &&& r is Ok <==> (is_file@.len() > 0 && is_file@[0])
            &&& r matches Ok(f) ==> f matches Some(x) && x@ == paths@[0]@
            &&& r matches Err(m) ==> m@ == config_not_found_message_of(p@)
        },
        config is None ==> {
            &&& r is Ok
            &&& r matches Ok(Some(x)) ==> exists|k: int|
                0 <= k < paths@.len() && is_file@[k] && x@ == paths@[k]@ && forall|j: int|
                    0 <= j < k ==> !is_file@[j]
            &&& r matches Ok(None) ==> forall|k: int| 0 <= k < is_file@.len() ==> !is_file@[k]
        },
{
    match config {
        Some(p) => {
            if is_file.len() > 0 && is_file[0] {
                Ok(Some(paths[0].clone()))
            } else {
                Err(config_not_found_message(p.as_str()))
            }
        },
        None => Ok(find_default_config(paths, is_file)),
    }
}

/// The run's settings once the project file, if any, has been read: `file`
/// is its path and content. A bad line of the file stops the run with its
/// message; else the file's settings are merged with the command line and
/// the defaults, the default log files lying in the project's directory
/// for temporary files under the system's one, `system_temp`.
pub fn settle_config(
    args: CliArgs,
    project_root: String,
    system_temp: &str,
    file: Option<(String, String)>,
) -> (r: Result<AppConfig, String>)
    ensures
        file is None ==> (r matches Ok(c) && resolves_to(
            c,
            args,
            None,
            project_root@,
            Map::<Seq<char>, Seq<char>>::empty(),
            project_temp_dir_of(system_temp@, project_root@),
        )),
        file matches Some((p, content)) ==> match config_settings(content@) {
            Ok(s) => (r matches Ok(c) && resolves_to(
                c,
                args,
                Some(p@),
                project_root@,
                settings_map(s),
                project_temp_dir_of(system_temp@, project_root@),
            )),
            Err(i) => (r matches Err(m) && 0 <= i < text::lines_of(content@).len() && m@
                == config_line_message(
                p@,
                (i + 1) as nat,
                text::trim_text(text::lines_of(content@)[i]),
            )),
        },
{
    match file {
        None => {
            let settings = ConfigMap::new();
            Ok(AppConfig::resolve(args, None, project_root, &settings, system_temp))
        },
        Some((path, content)) => {
            let settings = load_config_text(path.as_str(), content.as_str())?;
            Ok(AppConfig::resolve(args, Some(path), project_root, &settings, system_temp))
        },
    }
}

// ---------------------------------------------------------------------------
// Merging the command line, the project file and the defaults
// ---------------------------------------------------------------------------

/// A setting with a default: the command-line value when given, else the
/// project file's value for `key` when it has one, else the default.
pub open spec fn choose_setting(
    cli: Option<Seq<char>>,
    settings: Map<Seq<char>, Seq<char>>,
    key: Seq<char>,
    default: Seq<char>,
) -> Seq<char> {
    match cli {
        Some(v) => v,
        None => if settings.contains_key(key) {
            settings[key]
        } else {
            default
        },
    }
}

/// An optional setting: the command-line value when given, else the
/// project file's value for `key` when it has one.
pub open spec fn choose_optional(
    cli: Option<Seq<char>>,
    settings: Map<Seq<char>, Seq<char>>,
    key: Seq<char>,
) -> Option<Seq<char>> {
    match cli {
        Some(v) => Some(v),
        None => if settings.contains_key(key) {
            Some(settings[key])
        } else {
            None
        },
    }
}

/// A switch that a command-line flag turns off: "0" when the flag is given,
/// else the project file's value for `key`, else "1".
pub open spec fn choose_switch(off: bool, settings: Map<Seq<char>, Seq<char>>, key: Seq<char>) -> Seq<
    char,
> {
    if off {
        "0"@
    } else if settings.contains_key(key) {
        settings[key]
    } else {
        "1"@
    }
}

/// The settings of a run, from the command line, the project file (at
/// `config_file`, with the given settings), the project root and the
/// project's directory for temporary files.
pub open spec fn resolves_to(
    c: AppConfig,
    args: CliArgs,
    config_file: Option<Seq<char>>,
    project_root: Seq<char>,
    settings: Map<Seq<char>, Seq<char>>,
    temp_dir: Seq<char>,
) -> bool {
    &&& opt_view(c.config_file) == config_file
    &&& c.project_root@ == project_root
    &&& opt_view(c.jlink_gdb_server) == choose_optional(
        opt_view(args.jlink_gdb_server),
        settings,
        "JLINK_GDB_SERVER"@,
    )
    &&& opt_view(c.gdb) == choose_optional(opt_view(args.gdb), settings, "GDB"@)
    &&& opt_view(c.nc) == choose_optional(opt_view(args.nc), settings, "NC"@)
    &&& c.host@ == choose_setting(opt_view(args.host), settings, "HOST"@, "127.0.0.1"@)
    &&& opt_view(c.device) == choose_optional(opt_view(args.device), settings, "DEVICE"@)
    &&& c.jlink_if@ == choose_setting(opt_view(args.jlink_if), settings, "JLINK_IF"@, "SWD"@)
    &&& c.speed@ == choose_setting(opt_view(args.speed), settings, "SPEED"@, "4000"@)
    &&& opt_view(c.jlink_serial) == choose_optional(opt_view(args.serial), settings, "JLINK_SERIAL"@)
    &&& c.gdb_port@ == choose_setting(opt_view(args.gdb_port), settings, "GDB_PORT"@, "2331"@)
    &&& c.rtt_port@ == choose_setting(opt_view(args.rtt_port), settings, "RTT_PORT"@, "19021"@)
    &&& c.ready_timeout@ == choose_setting(
        opt_view(args.timeout),
        settings,
        "RTT_READY_TIMEOUT"@,
        "10"@,
    )
    &&& c.log_file@ == choose_setting(
        opt_view(args.log),
        settings,
        "LOG_FILE"@,
        paths::path_join(temp_dir, "jlink_gdb_server.log"@),
    )
    &&& c.gdb_log_file@ == choose_setting(
        opt_view(args.gdb_log),
        settings,
        "GDB_LOG_FILE"@,
        paths::path_join(temp_dir, "jlink_gdb_resume.log"@),
    )
    &&& opt_view(c.rtt_out_file) == choose_optional(opt_view(args.out), settings, "RTT_OUT_FILE"@)
    &&& opt_view(c.rtt_match_pattern) == choose_optional(
        opt_view(args.match_pattern),
        settings,
        "RTT_MATCH_PATTERN"@,
    )
    &&& c.rtt_match_timeout@ == choose_setting(
        opt_view(args.match_timeout),
        settings,
        "RTT_MATCH_TIMEOUT"@,
        "30"@,
    )
    &&& c.reset_target@ == choose_switch(args.no_reset, settings, "RESET_TARGET"@)
    &&& c.resume_target@ == choose_switch(args.no_resume, settings, "RESUME_TARGET"@)
    &&& c.print_config == args.print_config
    &&& c.init == args.init
    &&& c.stop == args.stop
    &&& opt_view(c.search_device) == opt_view(args.search_device)
}

fn pick_setting(cli: Option<String>, settings: &ConfigMap, key: &str, default: &str) -> (r: String)
    ensures
        r@ == choose_setting(opt_view(cli), settings@, key@, default@),
{
    match cli {
        Some(v) => v,
        None => match settings.get(key) {
            Some(v) => v,
            None => default.to_owned(),
        },
    }
}

fn pick_optional(cli: Option<String>, settings: &ConfigMap, key: &str) -> (r: Option<String>)
    ensures
        opt_view(r) == choose_optional(opt_view(cli), settings@, key@),
{
    match cli {
        Some(v) => Some(v),
        None => settings.get(key),
    }
}

fn pick_switch(off: bool, settings: &ConfigMap, key: &str) -> (r: String)
    ensures
        r@ == choose_switch(off, settings@, key@),
{
    if off {
        "0".to_owned()
    } else {
        match settings.get(key) {
            Some(v) => v,
            None => "1".to_owned(),
        }
    }
}

impl AppConfig {
    /// Merges the command line, the project file's settings and the
    /// defaults: a command-line value wins over the file, which wins over
    /// the default; `--no-reset` and `--no-resume` turn the target reset
    /// and resume off whatever the file says. The default log files lie in
    /// the project's directory for temporary files, under the system's
    /// directory for temporary files `system_temp`.
    pub fn resolve(
        args: CliArgs,
        config_file: Option<String>,
        project_root: String,
        settings: &ConfigMap,
        system_temp: &str,
    ) -> (c: AppConfig)
        ensures
            resolves_to(
                c,
                args,
                opt_view(config_file),
                project_root@,
                settings@,
                project_temp_dir_of(system_temp@, project_root@),
            ),
    {
        let temp_dir = get_project_temp_dir(system_temp, project_root.as_str());
        let reset_target = pick_switch(args.no_reset, settings, "RESET_TARGET");
        let resume_target = pick_switch(args.no_resume, settings, "RESUME_TARGET");
        let jlink_gdb_server = pick_optional(args.jlink_gdb_server, settings, "JLINK_GDB_SERVER");
        let gdb = pick_optional(args.gdb, settings, "GDB");
        let nc = pick_optional(args.nc, settings, "NC");
        let host = pick_setting(args.host, settings, "HOST", "127.0.0.1");
        let device = pick_optional(args.device, settings, "DEVICE");
        let jlink_if = pick_setting(args.jlink_if, settings, "JLINK_IF", "SWD");
        let speed = pick_setting(args.speed, settings, "SPEED", "4000");
        let jlink_serial = pick_optional(args.serial, settings, "JLINK_SERIAL");
        let gdb_port = pick_setting(args.gdb_port, settings, "GDB_PORT", "2331");
        let rtt_port = pick_setting(args.rtt_port, settings, "RTT_PORT", "19021");
        let ready_timeout = pick_setting(args.timeout, settings, "RTT_READY_TIMEOUT", "10");
        let default_log = join_path(temp_dir.as_str(), "jlink_gdb_server.log");
        let default_gdb_log = join_path(temp_dir.as_str(), "jlink_gdb_resume.log");
        let log_file = pick_setting(args.log, settings, "LOG_FILE", default_log.as_str());
        let gdb_log_file = pick_setting(args.gdb_log, settings, "GDB_LOG_FILE", default_gdb_log.as_str());
        let rtt_out_file = pick_optional(args.out, settings, "RTT_OUT_FILE");
        let rtt_match_pattern = pick_optional(args.match_pattern, settings, "RTT_MATCH_PATTERN");
        let rtt_match_timeout = pick_setting(args.match_timeout, settings, "RTT_MATCH_TIMEOUT", "30");
        AppConfig {
            config_file,
            project_root,
            jlink_gdb_server,
            gdb,
            nc,
            host,
            device,
            jlink_if,
            speed,
            jlink_serial,
            gdb_port,
            rtt_port,
            ready_timeout,
            log_file,
            gdb_log_file,
            rtt_out_file,
            rtt_match_pattern,
            rtt_match_timeout,
            reset_target,
            resume_target,
            print_config: args.print_config,
            init: args.init,
            stop: args.stop,
            search_device: args.search_device,
        }
    }
}

/// Law: every setting read from a project file has a valid name: a letter
/// or `_` followed by letters, digits and `_`.
pub proof fn law_setting_names_valid(content: Seq<char>)
    ensures
        config_settings(content) matches Ok(s) ==> forall|i: int|
            0 <= i < s.len() ==> valid_key(#[trigger] s[i].0),
{
    lemma_settings_keys_valid(text::lines_of(content), text::lines_of(content).len() as int);
}

/// Law: the settings of a run follow the command line, then the project
/// file, then the defaults, setting by setting: a value given on the
/// command line is used; else the project file's value for the setting's
/// key, when the file has one; else the default (none for a setting
/// without one). `--no-reset` and `--no-resume` set their switch to "0"
/// whatever the file says; else the file's value, else "1". The default
/// log files lie in the project's directory for temporary files.
pub proof fn law_settings_precedence(
    c: AppConfig,
    args: CliArgs,
    config_file: Option<Seq<char>>,
    project_root: Seq<char>,
    settings: Map<Seq<char>, Seq<char>>,
    temp_dir: Seq<char>,
)
    requires
        resolves_to(c, args, config_file, project_root, settings, temp_dir),
    ensures
        args.host matches Some(v) ==> c.host@ == v@,
        args.host is None && settings.contains_key("HOST"@) ==> c.host@ == settings["HOST"@],
        args.host is None && !settings.contains_key("HOST"@) ==> c.host@ == "127.0.0.1"@,
        args.jlink_if matches Some(v) ==> c.jlink_if@ == v@,
        args.jlink_if is None && settings.contains_key("JLINK_IF"@)
            ==> c.jlink_if@ == settings["JLINK_IF"@],
        args.jlink_if is None && !settings.contains_key("JLINK_IF"@) ==> c.jlink_if@ == "SWD"@,
        args.speed matches Some(v) ==> c.speed@ == v@,
        args.speed is None && settings.contains_key("SPEED"@) ==> c.speed@ == settings["SPEED"@],
        args.speed is None && !settings.contains_key("SPEED"@) ==> c.speed@ == "4000"@,
        args.gdb_port matches Some(v) ==> c.gdb_port@ == v@,
        args.gdb_port is None && settings.contains_key("GDB_PORT"@)
            ==> c.gdb_port@ == settings["GDB_PORT"@],
        args.gdb_port is None && !settings.contains_key("GDB_PORT"@) ==> c.gdb_port@ == "2331"@,
        args.rtt_port matches Some(v) ==> c.rtt_port@ == v@,
        args.rtt_port is None && settings.contains_key("RTT_PORT"@)
            ==> c.rtt_port@ == settings["RTT_PORT"@],
        args.rtt_port is None && !settings.contains_key("RTT_PORT"@) ==> c.rtt_port@ == "19021"@,
        args.timeout matches Some(v) ==> c.ready_timeout@ == v@,
        args.timeout is None && settings.contains_key("RTT_READY_TIMEOUT"@)
            ==> c.ready_timeout@ == settings["RTT_READY_TIMEOUT"@],
        args.timeout is None && !settings.contains_key("RTT_READY_TIMEOUT"@)
            ==> c.ready_timeout@ == "10"@,
        args.log matches Some(v) ==> c.log_file@ == v@,
        args.log is None && settings.contains_key("LOG_FILE"@)
            ==> c.log_file@ == settings["LOG_FILE"@],
        args.log is None && !settings.contains_key("LOG_FILE"@)
            ==> c.log_file@ == paths::path_join(temp_dir, "jlink_gdb_server.log"@),
        args.gdb_log matches Some(v) ==> c.gdb_log_file@ == v@,
        args.gdb_log is None && settings.contains_key("GDB_LOG_FILE"@)
            ==> c.gdb_log_file@ == settings["GDB_LOG_FILE"@],
        args.gdb_log is None && !settings.contains_key("GDB_LOG_FILE"@)
            ==> c.gdb_log_file@ == paths::path_join(temp_dir, "jlink_gdb_resume.log"@),
        args.match_timeout matches Some(v) ==> c.rtt_match_timeout@ == v@,
        args.match_timeout is None && settings.contains_key("RTT_MATCH_TIMEOUT"@)
            ==> c.rtt_match_timeout@ == settings["RTT_MATCH_TIMEOUT"@],
        args.match_timeout is None && !settings.contains_key("RTT_MATCH_TIMEOUT"@)
            ==> c.rtt_match_timeout@ == "30"@,
        args.jlink_gdb_server matches Some(v) ==> opt_view(c.jlink_gdb_server) == Some(v@),
        args.jlink_gdb_server is None && settings.contains_key("JLINK_GDB_SERVER"@)
            ==> opt_view(c.jlink_gdb_server) == Some(settings["JLINK_GDB_SERVER"@]),
        args.jlink_gdb_server is None && !settings.contains_key("JLINK_GDB_SERVER"@)
            ==> c.jlink_gdb_server is None,
        args.gdb matches Some(v) ==> opt_view(c.gdb) == Some(v@),
        args.gdb is None && settings.contains_key("GDB"@)
            ==> opt_view(c.gdb) == Some(settings["GDB"@]),
        args.gdb is None && !settings.contains_key("GDB"@) ==> c.gdb is None,
        args.nc matches Some(v) ==> opt_view(c.nc) == Some(v@),
        args.nc is None && settings.contains_key("NC"@) ==> opt_view(c.nc) == Some(settings["NC"@]),
        args.nc is None && !settings.contains_key("NC"@) ==> c.nc is None,
        args.device matches Some(v) ==> opt_view(c.device) == Some(v@),
        args.device is None && settings.contains_key("DEVICE"@)
            ==> opt_view(c.device) == Some(settings["DEVICE"@]),
        args.device is None && !settings.contains_key("DEVICE"@) ==> c.device is None,
        args.serial matches Some(v) ==> opt_view(c.jlink_serial) == Some(v@),
        args.serial is None && settings.contains_key("JLINK_SERIAL"@)
            ==> opt_view(c.jlink_serial) == Some(settings["JLINK_SERIAL"@]),
        args.serial is None && !settings.contains_key("JLINK_SERIAL"@) ==> c.jlink_serial is None,
        args.out matches Some(v) ==> opt_view(c.rtt_out_file) == Some(v@),
        args.out is None && settings.contains_key("RTT_OUT_FILE"@)
            ==> opt_view(c.rtt_out_file) == Some(settings["RTT_OUT_FILE"@]),
        args.out is None && !settings.contains_key("RTT_OUT_FILE"@) ==> c.rtt_out_file is None,
        args.match_pattern matches Some(v) ==> opt_view(c.rtt_match_pattern) == Some(v@),
        args.match_pattern is None && settings.contains_key("RTT_MATCH_PATTERN"@)
            ==> opt_view(c.rtt_match_pattern) == Some(settings["RTT_MATCH_PATTERN"@]),
        args.match_pattern is None && !settings.contains_key("RTT_MATCH_PATTERN"@)
            ==> c.rtt_match_pattern is None,
        args.no_reset ==> c.reset_target@ == "0"@,
        !args.no_reset && settings.contains_key("RESET_TARGET"@)
            ==> c.reset_target@ == settings["RESET_TARGET"@],
        !args.no_reset && !settings.contains_key("RESET_TARGET"@) ==> c.reset_target@ == "1"@,
        args.no_resume ==> c.resume_target@ == "0"@,
        !args.no_resume && settings.contains_key("RESUME_TARGET"@)
            ==> c.resume_target@ == settings["RESUME_TARGET"@],
        !args.no_resume && !settings.contains_key("RESUME_TARGET"@) ==> c.resume_target@ == "1"@,
        opt_view(c.config_file) == config_file,
        c.project_root@ == project_root,
        c.print_config == args.print_config && c.init == args.init && c.stop == args.stop,
        opt_view(c.search_device) == opt_view(args.search_device),
{
}

} // verus!
