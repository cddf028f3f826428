//! Checks before a session starts: which J-Link GDB server and `nc` to use,
//! whether a J-Link probe is attached, whether the GDB and RTT ports are
//! free, and the serial numbers of the attached probes.
use vstd::prelude::*;
use crate::config::{self, AppConfig};
use crate::paths::{self, join_path};
use crate::text::{
    self, chars_eq, chars_of, push_str, split_lines, split_whitespace,
    string_from_chars, text_less_chars, to_lowercase, trim_chars,
};

verus! {

/// The commands a session runs.
#[derive(Debug)]
pub struct DetectedTools {
    pub jlink_gdb_server: String,
    pub nc: String,
}

/// What a search of the system found for each command the tool may use:
/// whether an override path is a file, and the first executable of each
/// name on the `PATH`.
pub struct ToolSearch {
    pub jlink_override_is_file: bool,
    pub nc_override_is_file: bool,
    pub jlink_gdb_server: Option<String>,
    pub jlink_gdb_server_cl: Option<String>,
    pub jlink_gdb_server_cl_exe: Option<String>,
    pub nc: Option<String>,
    pub ncat: Option<String>,
}

/// The names under which an executable `cmd` is looked for in each
/// directory of the `PATH`: on Windows `cmd.exe` first, then `cmd`.
pub open spec fn executable_names_of(cmd: Seq<char>, on_windows: bool) -> Seq<Seq<char>> {
    if on_windows {
        seq![cmd + ".exe"@, cmd]
    } else {
        seq![cmd]
    }
}

/// The names under which an executable is looked for on the `PATH`.
pub fn executable_candidates(cmd: &str, on_windows: bool) -> (r: Vec<String>)
    ensures
        r@.len() == executable_names_of(cmd@, on_windows).len(),
        forall|k: int| 0 <= k < r@.len() ==> (#[trigger] r@[k])@ == executable_names_of(cmd@, on_windows)[k],
{
    let mut r: Vec<String> = Vec::new();
    if on_windows {
        r.push(text::concat2(cmd, ".exe"));
    }
    r.push(cmd.to_owned());
    r
}

/// The paths tried for an executable, in order: in each directory of the
/// `PATH` in turn, each of the names it is looked for under.
pub open spec fn executable_paths_of(dirs: Seq<Seq<char>>, names: Seq<Seq<char>>) -> Seq<Seq<char>>
    decreases dirs.len(),
{
    if dirs.len() == 0 {
        Seq::empty()
    } else {
        executable_paths_of(dirs.drop_last(), names) + names.map_values(
            |n: Seq<char>| paths::path_join(dirs.last(), n),
        )
    }
}

/// The paths tried for the executable `cmd`, in order, given the
/// directories of the `PATH`.
pub fn executable_search_paths(dirs: &Vec<String>, cmd: &str, on_windows: bool) -> (r: Vec<String>)
    ensures
        r@.map_values(|s: String| s@) == executable_paths_of(
            dirs@.map_values(|d: String| d@),
            executable_names_of(cmd@, on_windows),
        ),
{
    let names = executable_candidates(cmd, on_windows);
    let ghost ns = executable_names_of(cmd@, on_windows);
    let ghost ds = dirs@.map_values(|d: String| d@);
    proof {
        assert(names@.map_values(|s: String| s@) =~= ns);
    }
    let mut r: Vec<String> = Vec::new();
    let mut i: usize = 0;
    while i < dirs.len()
        invariant
            i <= dirs@.len(),
            ds == dirs@.map_values(|d: String| d@),
            names@.map_values(|s: String| s@) == ns,
            r@.map_values(|s: String| s@) == executable_paths_of(ds.take(i as int), ns),
        decreases dirs.len() - i,
    {
        let ghost before = r@.map_values(|s: String| s@);
        let mut j: usize = 0;
        while j < names.len()
            invariant
                j <= names@.len(),
                i < dirs@.len(),
                ds == dirs@.map_values(|d: String| d@),
                names@.map_values(|s: String| s@) == ns,
                r@.map_values(|s: String| s@) == before + ns.take(j as int).map_values(
                    |n: Seq<char>| paths::path_join(ds[i as int], n),
                ),
            decreases names.len() - j,
        {
            let ghost mid = r@.map_values(|s: String| s@);
            r.push(join_path(dirs[i].as_str(), names[j].as_str()));
            proof {
                assert(r@.map_values(|s: String| s@) =~= mid.push(paths::path_join(ds[i as int], ns[j as int])));
                assert(ns.take(j + 1).map_values(|n: Seq<char>| paths::path_join(ds[i as int], n))
                    =~= ns.take(j as int).map_values(|n: Seq<char>| paths::path_join(ds[i as int], n)).push(
                    paths::path_join(ds[i as int], ns[j as int]),
                ));
            }
            j = j + 1;
        }
        proof {
            assert(ns.take(ns.len() as int) =~= ns);
            assert(ds.take(i + 1).drop_last() =~= ds.take(i as int));
            assert(ds.take(i + 1).last() == ds[i as int]);
        }
        i = i + 1;
    }
    proof {
        assert(ds.take(ds.len() as int) =~= ds);
    }
    r
}

/// The first of the tried paths that is an executable file, given for each
/// whether it is one: where the tool finds a command on the `PATH`.
pub fn find_executable(tried: &Vec<String>, is_executable: &Vec<bool>) -> (r: Option<String>)
    requires
        tried@.len() == is_executable@.len(),
    ensures
        r matches Some(p) ==> exists|k: int|
            0 <= k < tried@.len() && is_executable@[k] && p@ == tried@[k]@ && forall|j: int|
                0 <= j < k ==> !is_executable@[j],
        r is None ==> forall|k: int| 0 <= k < is_executable@.len() ==> !is_executable@[k],
{
    text::first_marked(tried, is_executable)
}

pub open spec fn missing_command_message(path: Seq<char>) -> Seq<char> {
    "[ERROR] Missing required command: "@ + path + ".\n[INFO] Re-run the command with a valid path."@
}

pub open spec fn missing_jlink_message() -> Seq<char> {
    "[ERROR] Missing required command. Tried JLinkGDBServer, JLinkGDBServerCLExe.\n[INFO] Install SEGGER J-Link tools and add to PATH.\n[INFO] Or override individually: --jlink-gdb-server <path>"@
}

pub open spec fn first_found(a: Option<String>, b: Option<String>) -> Option<Seq<char>> {
    match a {
        Some(x) => Some(x@),
        None => config::opt_view(b),
    }
}

/// Which J-Link GDB server and `nc` a session uses: an override path when
/// given (an error when it is not a file), else the first of
/// `JLinkGDBServer`, `JLinkGDBServerCL`, `JLinkGDBServerCLExe` found (an
/// error when none is), and the first of `nc`, `ncat` found, else `nc`.
pub open spec fn tools_choice(
    override_jlink: Option<Seq<char>>,
    override_nc: Option<Seq<char>>,
    found: ToolSearch,
) -> Result<(Seq<char>, Seq<char>), Seq<char>> {
    let jlink = match override_jlink {
        Some(p) => if found.jlink_override_is_file {
            Ok(p)
        } else {
            Err(missing_command_message(p))
        },
        None => match found.jlink_gdb_server {
            Some(x) => Ok(x@),
            None => match first_found(found.jlink_gdb_server_cl, found.jlink_gdb_server_cl_exe) {
                Some(x) => Ok(x),
                None => Err(missing_jlink_message()),
            },
        },
    };
    match jlink {
        Err(e) => Err(e),
        Ok(j) => match override_nc {
            Some(p) => if found.nc_override_is_file {
                Ok((j, p))
            } else {
                Err(missing_command_message(p))
            },
            None => match first_found(found.nc, found.ncat) {
                Some(n) => Ok((j, n)),
                None => Ok((j, "nc"@)),
            },
        },
    }
}

fn missing_command(path: &str) -> (r: String)
    ensures
        r@ == missing_command_message(path@),
{
    let mut v: Vec<char> = Vec::new();
    push_str(&mut v, "[ERROR] Missing required command: ");
    push_str(&mut v, path);
    push_str(&mut v, ".\n[INFO] Re-run the command with a valid path.");
    string_from_chars(&v)
}

fn copy_option(o: &Option<String>) -> (r: Option<String>)
    ensures
        config::opt_view(r) == config::opt_view(*o),
{
    match o {
        Some(s) => Some(s.clone()),
        None => None,
    }
}

/// Picks the J-Link GDB server and the `nc` command of a session.
pub fn detect_tools(
    override_jlink: &Option<String>,
    override_nc: &Option<String>,
    found: &ToolSearch,
) -> (r: Result<DetectedTools, String>)
    ensures
        r matches Ok(t) ==> tools_choice(config::opt_view(*override_jlink), config::opt_view(*override_nc), *found)
            == Ok::<(Seq<char>, Seq<char>), Seq<char>>((t.jlink_gdb_server@, t.nc@)),
        r matches Err(e) ==> tools_choice(config::opt_view(*override_jlink), config::opt_view(*override_nc), *found)
            == Err::<(Seq<char>, Seq<char>), Seq<char>>(e@),
{
    let jlink = match override_jlink {
        Some(p) => {
            if !found.jlink_override_is_file {
                return Err(missing_command(p.as_str()));
            }
            p.clone()
        },
        None => {
            let a = copy_option(&found.jlink_gdb_server);
            match a {
                Some(x) => x,
                None => match copy_option(&found.jlink_gdb_server_cl) {
                    Some(x) => x,
                    None => match copy_option(&found.jlink_gdb_server_cl_exe) {
                        Some(x) => x,
                        None => {
                            let mut v: Vec<char> = Vec::new();
                            push_str(
                                &mut v,
                                "[ERROR] Missing required command. Tried JLinkGDBServer, JLinkGDBServerCLExe.\n[INFO] Install SEGGER J-Link tools and add to PATH.\n[INFO] Or override individually: --jlink-gdb-server <path>",
                            );
                            return Err(string_from_chars(&v));
                        },
                    },
                },
            }
        },
    };
    let nc = match override_nc {
        Some(p) => {
            if !found.nc_override_is_file {
                return Err(missing_command(p.as_str()));
            }
            p.clone()
        },
        None => match copy_option(&found.nc) {
            Some(x) => x,
            None => match copy_option(&found.ncat) {
                Some(x) => x,
                None => "nc".to_owned(),
            },
        },
    };
    Ok(DetectedTools { jlink_gdb_server: jlink, nc })
}

// ---------------------------------------------------------------------------
// Ports
// ---------------------------------------------------------------------------

/// What probing a port found.
pub enum PortProbe {
    /// No address of the host accepted a connection on the port.
    Free,
    /// Some address of the host accepted a connection on the port.
    InUse,
    /// The address did not resolve; the resolver's message.
    Unresolvable(String),
}

/// The `host:port` address of a port.
pub open spec fn socket_address_of(host: Seq<char>, port: Seq<char>) -> Seq<char> {
    host + ":"@ + port
}

/// The `host:port` address of a port.
pub fn socket_address(host: &str, port: &str) -> (r: String)
    ensures
        r@ == socket_address_of(host@, port@),
{
    let mut v: Vec<char> = Vec::new();
    push_str(&mut v, host);
    push_str(&mut v, ":");
    push_str(&mut v, port);
    string_from_chars(&v)
}

pub open spec fn port_in_use_message_of(
    name: Seq<char>,
    address: Seq<char>,
    port: Seq<char>,
    name_lower: Seq<char>,
) -> Seq<char> {
    "[ERROR] "@ + name + " port "@ + address + " is already in use.\n"@
        + "[INFO] Find and stop the stale process: lsof -i :"@ + port + " || ss -tlnp | grep :"@
        + port + "\n"@ + "[INFO] Or use a different port: --"@ + name_lower + "-port <PORT>"@
}

/// The message for a port that is already in use, given the port's name
/// lowercased for the option it names.
pub fn port_in_use_message(name: &str, address: &str, port: &str, name_lower: &str) -> (r: String)
    ensures
        r@ == port_in_use_message_of(name@, address@, port@, name_lower@),
{
    let mut v: Vec<char> = Vec::new();
    push_str(&mut v, "[ERROR] ");
    push_str(&mut v, name);
    push_str(&mut v, " port ");
    push_str(&mut v, address);
    push_str(&mut v, " is already in use.\n");
    push_str(&mut v, "[INFO] Find and stop the stale process: lsof -i :");
    push_str(&mut v, port);
    push_str(&mut v, " || ss -tlnp | grep :");
    push_str(&mut v, port);
    push_str(&mut v, "\n");
    push_str(&mut v, "[INFO] Or use a different port: --");
    push_str(&mut v, name_lower);
    push_str(&mut v, "-port <PORT>");
    string_from_chars(&v)
}

/// The outcome of checking that the port `name` is free.
pub open spec fn port_check(
    host: Seq<char>,
    port: Seq<char>,
    name: Seq<char>,
    probe: PortProbe,
) -> Result<(), Seq<char>> {
    let address = socket_address_of(host, port);
    match probe {
        PortProbe::Free => Ok(()),
        PortProbe::InUse => Err(
            port_in_use_message_of(name, address, port, text::lowercase_text(name)),
        ),
        PortProbe::Unresolvable(e) => Err("[ERROR] Invalid address "@ + address + ": "@ + e@),
    }
}

/// Checks that the port `name` is free, given what probing it found.
pub fn ensure_port_free(host: &str, port: &str, name: &str, probe: &PortProbe) -> (r: Result<(), String>)
    ensures
        r is Ok ==> port_check(host@, port@, name@, *probe) == Ok::<(), Seq<char>>(()),
        r matches Err(e) ==> port_check(host@, port@, name@, *probe) == Err::<(), Seq<char>>(e@),
{
    let address = socket_address(host, port);
    match probe {
        PortProbe::Free => Ok(()),
        PortProbe::InUse => {
            let lower = to_lowercase(name);
            Err(port_in_use_message(name, address.as_str(), port, lower.as_str()))
        },
        PortProbe::Unresolvable(e) => {
            let mut v: Vec<char> = Vec::new();
            push_str(&mut v, "[ERROR] Invalid address ");
            push_str(&mut v, address.as_str());
            push_str(&mut v, ": ");
            push_str(&mut v, e.as_str());
            Err(string_from_chars(&v))
        },
    }
}

// ---------------------------------------------------------------------------
// Attached probes
// ---------------------------------------------------------------------------

/// What listing the USB devices gave.
pub enum UsbListing {
    /// The platform has no USB listing to check (not Linux).
    NotChecked,
    /// The listing command could not be run.
    Unavailable,
    /// The listing command's output.
    Listing(String),
}

/// Whether a lowercased USB device listing shows a SEGGER J-Link.
pub open spec fn mentions_jlink(lower: Seq<char>) -> bool {
    text::contains_text(lower, "segger"@) || text::contains_text(lower, "j-link"@)
        || text::contains_text(lower, "1366:"@)
}

/// Whether a lowercased USB device listing shows a SEGGER J-Link: it
/// names SEGGER or J-Link, or SEGGER's USB vendor id 1366.
pub fn listing_mentions_jlink(lower: &str) -> (b: bool)
    ensures
        b == mentions_jlink(lower@),
{
    text::contains_str(lower, "segger") || text::contains_str(lower, "j-link") || text::contains_str(
        lower,
        "1366:",
    )
}

pub open spec fn no_probe_warning() -> Seq<char> {
    "[WARN] No SEGGER/J-Link USB device detected.\n[INFO] Ask the user to check: USB connection, permissions, or USB passthrough.\n[INFO] If using a remote J-Link, this warning can be ignored."@
}

/// The warning that a USB listing calls for, if any.
pub open spec fn usb_warning(listing: UsbListing) -> Option<Seq<char>> {
    match listing {
        UsbListing::NotChecked => None,
        UsbListing::Unavailable => Some(no_probe_warning()),
        UsbListing::Listing(t) => if mentions_jlink(text::lowercase_text(t@)) {
            None
        } else {
            Some(no_probe_warning())
        },
    }
}

/// Checks the USB listing for a J-Link probe; the warning to print when
/// none shows.
pub fn check_usb_device(listing: &UsbListing) -> (r: Option<String>)
    ensures
        config::opt_view(r) == usb_warning(*listing),
{
    let has_jlink = match listing {
        UsbListing::NotChecked => {
            return None;
        },
        UsbListing::Unavailable => false,
        UsbListing::Listing(t) => {
            let lower = to_lowercase(t.as_str());
            listing_mentions_jlink(lower.as_str())
        },
    };
    if has_jlink {
        None
    } else {
        let mut v: Vec<char> = Vec::new();
        push_str(
            &mut v,
            "[WARN] No SEGGER/J-Link USB device detected.\n[INFO] Ask the user to check: USB connection, permissions, or USB passthrough.\n[INFO] If using a remote J-Link, this warning can be ignored.",
        );
        Some(string_from_chars(&v))
    }
}


/// The serial number that a line of `lsusb -v` output announces: on a line
/// that mentions `iSerial` (in any case), the third whitespace-separated
/// field, unless it is `0`.
pub open spec fn serial_in_line(line: Seq<char>, line_lower: Seq<char>) -> Option<Seq<char>> {
    if text::contains_text(line_lower, "iserial"@) {
        let toks = text::tokens_of(line);
        if toks.len() >= 3 {
            let s = text::trim_text(toks[2]);
            if s.len() > 0 && s != seq!['0'] {
                Some(s)
            } else {
                None
            }
        } else {
            None
        }
    } else {
        None
    }
}

/// The serial numbers announced by the first `n` lines, in order.
pub open spec fn serials_upto(lines: Seq<Seq<char>>, n: int) -> Seq<Seq<char>>
    decreases n,
{
    if n <= 0 || n > lines.len() {
        Seq::empty()
    } else {
        let s = serials_upto(lines, n - 1);
        match serial_in_line(lines[n - 1], text::lowercase_text(lines[n - 1])) {
            Some(x) => s.push(x),
            None => s,
        }
    }
}

/// Where `x` goes in a sorted sequence: after every element before it.
pub open spec fn unique_position(s: Seq<Seq<char>>, x: Seq<char>, i: int) -> int
    decreases s.len() - i,
{
    if 0 <= i < s.len() && text::text_less(s[i], x) {
        unique_position(s, x, i + 1)
    } else {
        i
    }
}

pub proof fn lemma_unique_position(s: Seq<Seq<char>>, x: Seq<char>, i: int)
    requires
        0 <= i <= s.len(),
    ensures
        i <= unique_position(s, x, i) <= s.len(),
        forall|k: int| i <= k < unique_position(s, x, i) ==> text::text_less(#[trigger] s[k], x),
        unique_position(s, x, i) < s.len() ==> !text::text_less(s[unique_position(s, x, i)], x),
    decreases s.len() - i,
{
    if i < s.len() && text::text_less(s[i], x) {
        lemma_unique_position(s, x, i + 1);
    }
}

/// `x` added to a sorted sequence without duplicates, unless already there.
pub open spec fn insert_unique(s: Seq<Seq<char>>, x: Seq<char>) -> Seq<Seq<char>> {
    let p = unique_position(s, x, 0);
    if p < s.len() && s[p] == x {
        s
    } else {
        s.insert(p, x)
    }
}

/// The distinct elements of `s`, sorted: what `sort` then `dedup` leave.
pub open spec fn sorted_unique(s: Seq<Seq<char>>) -> Seq<Seq<char>>
    decreases s.len(),
{
    if s.len() == 0 {
        s
    } else {
        insert_unique(sorted_unique(s.drop_last()), s.last())
    }
}

/// The serial numbers of the attached J-Link probes that `lsusb -v -d
/// 1366:` printed, sorted and without duplicates; none without a listing.
pub open spec fn serials_of(listing: Option<Seq<char>>) -> Seq<Seq<char>> {
    match listing {
        Some(t) => sorted_unique(serials_upto(text::lines_of(t), text::lines_of(t).len() as int)),
        None => Seq::empty(),
    }
}

/// The serial number a line of `lsusb -v` output announces, given the line
/// lowercased.
pub fn serial_from_line(line: &Vec<char>, line_lower: &str) -> (r: Option<String>)
    ensures
        config::opt_view(r) == serial_in_line(line@, line_lower@),
{
    if !text::contains_str(line_lower, "iserial") {
        return None;
    }
    let toks = split_whitespace(line);
    if toks.len() < 3 {
        return None;
    }
    let s = trim_chars(&toks[2]);
    if s.len() > 0 && !(s.len() == 1 && s[0] == '0') {
        proof {
            assert(s@ != seq!['0']);
        }
        Some(string_from_chars(&s))
    } else {
        proof {
            if s@.len() == 1 {
                assert(s@ =~= seq!['0']);
            }
        }
        None
    }
}

fn insert_unique_chars(sorted: &mut Vec<Vec<char>>, x: Vec<char>)
    ensures
        final(sorted)@.len() == insert_unique(old(sorted)@.map_values(|v: Vec<char>| v@), x@).len(),
        forall|k: int|
            0 <= k < final(sorted)@.len() ==> (#[trigger] final(sorted)@[k])@ == insert_unique(
                old(sorted)@.map_values(|v: Vec<char>| v@),
                x@,
            )[k],
{
    let ghost s = sorted@.map_values(|v: Vec<char>| v@);
    let mut j: usize = 0;
    while j < sorted.len()
        invariant
            j <= sorted@.len(),
            s == sorted@.map_values(|v: Vec<char>| v@),
            unique_position(s, x@, 0) == unique_position(s, x@, j as int),
        ensures
            unique_position(s, x@, 0) == j,
        decreases sorted.len() - j,
    {
        if !text_less_chars(&sorted[j], &x) {
            break;
        }
        j = j + 1;
    }
    if j < sorted.len() && chars_eq(&sorted[j], &x) {
        return;
    }
    sorted.insert(j, x);
    proof {
        assert(sorted@.map_values(|v: Vec<char>| v@) =~= s.insert(j as int, x@));
    }
}

/// The serial numbers of the attached J-Link probes, from the output of
/// `lsusb -v -d 1366:` (`None` where it could not be run, or off Linux):
/// sorted, without duplicates.
pub fn detect_jlink_serials(listing: Option<&str>) -> (r: Vec<String>)
    ensures
        r@.len() == serials_of(
            match listing {
                Some(t) => Some(t@),
                None => None,
            },
        ).len(),
        forall|k: int|
            0 <= k < r@.len() ==> (#[trigger] r@[k])@ == serials_of(
                match listing {
                    Some(t) => Some(t@),
                    None => None,
                },
            )[k],
{
    let mut result: Vec<String> = Vec::new();
    let t = match listing {
        None => {
            return result;
        },
        Some(t) => t,
    };
    let content = chars_of(t);
    let lines = split_lines(&content);
    let ghost ls = text::lines_of(t@);
    let mut sorted: Vec<Vec<char>> = Vec::new();
    let mut i: usize = 0;
    while i < lines.len()
        invariant
            i <= lines@.len(),
            ls == text::lines_of(t@),
            lines@.len() == ls.len(),
            forall|k: int| 0 <= k < lines@.len() ==> (#[trigger] lines@[k])@ == ls[k],
            sorted@.map_values(|v: Vec<char>| v@) == sorted_unique(serials_upto(ls, i as int)),
        decreases lines.len() - i,
    {
        let line_str = string_from_chars(&lines[i]);
        let lower = to_lowercase(line_str.as_str());
        match serial_from_line(&lines[i], lower.as_str()) {
            Some(serial) => {
                let sv = chars_of(serial.as_str());
                let ghost before = sorted@.map_values(|v: Vec<char>| v@);
                insert_unique_chars(&mut sorted, sv);
                proof {
                    let su = serials_upto(ls, i + 1);
                    assert(su.drop_last() =~= serials_upto(ls, i as int));
                    assert(sorted@.map_values(|v: Vec<char>| v@) =~= insert_unique(before, sv@));
                }
            },
            None => {},
        }
        i = i + 1;
    }
    let ghost fin = sorted@.map_values(|v: Vec<char>| v@);
    let mut k: usize = 0;
    while k < sorted.len()
        invariant
            k <= sorted@.len(),
            fin == sorted@.map_values(|v: Vec<char>| v@),
            result@.len() == k,
            forall|m: int| 0 <= m < k ==> (#[trigger] result@[m])@ == fin[m],
        decreases sorted.len() - k,
    {
        result.push(string_from_chars(&sorted[k]));
        k = k + 1;
    }
    result
}


/// Each element comes strictly before the next in string order.
pub open spec fn strictly_sorted(s: Seq<Seq<char>>) -> bool {
    forall|i: int, j: int| 0 <= i < j < s.len() ==> text::text_less(#[trigger] s[i], #[trigger] s[j])
}

proof fn lemma_insert_unique(t: Seq<Seq<char>>, x: Seq<char>)
    requires
        strictly_sorted(t),
    ensures
        strictly_sorted(insert_unique(t, x)),
        forall|y: Seq<char>| #[trigger] insert_unique(t, x).contains(y) <==> (t.contains(y) || y == x),
{
    lemma_unique_position(t, x, 0);
    let p = unique_position(t, x, 0);
    if p < t.len() && t[p] == x {
    } else {
        let u = t.insert(p, x);
        if p < t.len() {
            text::lemma_text_order_total(x, t[p]);
        }
        assert forall|i: int, j: int| 0 <= i < j < u.len() implies text::text_less(
            #[trigger] u[i],
            #[trigger] u[j],
        ) by {
            if j < p {
                assert(u[i] == t[i] && u[j] == t[j]);
            } else if j == p {
                assert(u[i] == t[i]);
            } else if i < p {
                assert(u[i] == t[i] && u[j] == t[j - 1]);
                assert(text::text_less(t[i], x));
                if j - 1 > p {
                    assert(text::text_less(t[p], t[j - 1]));
                    text::lemma_text_less_transitive(x, t[p], t[j - 1], 0);
                }
                text::lemma_text_less_transitive(t[i], x, t[j - 1], 0);
            } else if i == p {
                assert(u[j] == t[j - 1]);
                if j - 1 > p {
                    assert(text::text_less(t[p], t[j - 1]));
                    text::lemma_text_less_transitive(x, t[p], t[j - 1], 0);
                }
            } else {
                assert(u[i] == t[i - 1] && u[j] == t[j - 1]);
            }
        }
        assert forall|y: Seq<char>| #[trigger] u.contains(y) <==> (t.contains(y) || y == x) by {
            if u.contains(y) {
                let w = choose|w: int| 0 <= w < u.len() && u[w] == y;
                if w < p {
                    assert(t[w] == y);
                } else if w > p {
                    assert(t[w - 1] == y);
                }
            }
            if t.contains(y) {
                let w = choose|w: int| 0 <= w < t.len() && t[w] == y;
                if w < p {
                    assert(u[w] == y);
                } else {
                    assert(u[w + 1] == y);
                }
            }
            if y == x {
                assert(u[p] == y);
            }
        }
    }
}

/// The sorted distinct elements: strictly sorted, and the same elements.
pub proof fn lemma_sorted_unique(s: Seq<Seq<char>>)
    ensures
        strictly_sorted(sorted_unique(s)),
        forall|y: Seq<char>| #[trigger] sorted_unique(s).contains(y) <==> s.contains(y),
    decreases s.len(),
{
    if s.len() > 0 {
        lemma_sorted_unique(s.drop_last());
        lemma_insert_unique(sorted_unique(s.drop_last()), s.last());
        assert forall|y: Seq<char>| #[trigger] sorted_unique(s).contains(y) <==> s.contains(y) by {
            if s.drop_last().contains(y) {
                let w = choose|w: int| 0 <= w < s.drop_last().len() && s.drop_last()[w] == y;
                assert(s[w] == y);
            }
            if s.contains(y) && y != s.last() {
                let w = choose|w: int| 0 <= w < s.len() && s[w] == y;
                assert(s.drop_last()[w] == y);
            }
            if y == s.last() {
                assert(s[s.len() - 1] == y);
            }
        }
    }
}

/// Law: the detected serial numbers are sorted in string order without
/// duplicates, and are exactly the serial numbers the listing announces.
pub proof fn law_serials_sorted_unique(listing: Seq<char>)
    ensures
        strictly_sorted(serials_of(Some(listing))),
        forall|y: Seq<char>|
            #[trigger] serials_of(Some(listing)).contains(y) <==> serials_upto(
                text::lines_of(listing),
                text::lines_of(listing).len() as int,
            ).contains(y),
{
    lemma_sorted_unique(serials_upto(text::lines_of(listing), text::lines_of(listing).len() as int));
}

// ---------------------------------------------------------------------------
// All checks
// ---------------------------------------------------------------------------

/// What the system looked like to the checks before a session.
pub struct PreflightProbes {
    pub tools: ToolSearch,
    pub usb: UsbListing,
    pub gdb_port: PortProbe,
    pub rtt_port: PortProbe,
}

/// The outcome of the checks before a session: the USB warning to print,
/// if any, and the commands to run or the reason not to start. The tools
/// are checked first; a missing tool stops before the USB check; then the
/// GDB port, then the RTT port must be free.
pub open spec fn preflight_outcome(config: AppConfig, probes: PreflightProbes) -> (
    Option<Seq<char>>,
    Result<(Seq<char>, Seq<char>), Seq<char>>,
) {
    match tools_choice(config::opt_view(config.jlink_gdb_server), config::opt_view(config.nc), probes.tools) {
        Err(e) => (None, Err(e)),
        Ok(t) => {
            let w = usb_warning(probes.usb);
            match port_check(config.host@, config.gdb_port@, "GDB"@, probes.gdb_port) {
                Err(e) => (w, Err(e)),
                Ok(_) => match port_check(config.host@, config.rtt_port@, "RTT"@, probes.rtt_port) {
                    Err(e) => (w, Err(e)),
                    Ok(_) => (w, Ok(t)),
                },
            }
        },
    }
}

/// Runs the checks before a session on what the probes found.
pub fn perform_preflight(config: &AppConfig, probes: &PreflightProbes) -> (r: (
    Option<String>,
    Result<DetectedTools, String>,
))
    ensures
        config::opt_view(r.0) == preflight_outcome(*config, *probes).0,
        r.1 matches Ok(t) ==> preflight_outcome(*config, *probes).1 == Ok::<
            (Seq<char>, Seq<char>),
            Seq<char>,
        >((t.jlink_gdb_server@, t.nc@)),
        r.1 matches Err(e) ==> preflight_outcome(*config, *probes).1 == Err::<
            (Seq<char>, Seq<char>),
            Seq<char>,
        >(e@),
{
    let tools = match detect_tools(&config.jlink_gdb_server, &config.nc, &probes.tools) {
        Ok(t) => t,
        Err(e) => {
            return (None, Err(e));
        },
    };
    let warning = check_usb_device(&probes.usb);
    match ensure_port_free(config.host.as_str(), config.gdb_port.as_str(), "GDB", &probes.gdb_port) {
        Err(e) => {
            return (warning, Err(e));
        },
        Ok(()) => {},
    }
    match ensure_port_free(config.host.as_str(), config.rtt_port.as_str(), "RTT", &probes.rtt_port) {
        Err(e) => {
            return (warning, Err(e));
        },
        Ok(()) => {},
    }
    (warning, Ok(tools))
}

/// Law: a session starts only when both ports are free. When the tools
/// are found and the GDB port is not free, the checks fail with the GDB
/// port's error; when the GDB port is free and the RTT port is not, with
/// the RTT port's error; a port in use is reported with the message that
/// names it, its address and how to free it. A missing tool fails the
/// checks before anything else is looked at.
pub proof fn law_session_needs_free_ports(config: AppConfig, probes: PreflightProbes)
    ensures
        preflight_outcome(config, probes).1 is Ok
            ==> probes.gdb_port is Free && probes.rtt_port is Free
            && tools_choice(config::opt_view(config.jlink_gdb_server), config::opt_view(config.nc), probes.tools) is Ok,
        tools_choice(config::opt_view(config.jlink_gdb_server), config::opt_view(config.nc), probes.tools) is Ok
            && !(probes.gdb_port is Free) ==> preflight_outcome(config, probes).1 == Err::<
            (Seq<char>, Seq<char>),
            Seq<char>,
        >(port_check(config.host@, config.gdb_port@, "GDB"@, probes.gdb_port)->Err_0),
        tools_choice(config::opt_view(config.jlink_gdb_server), config::opt_view(config.nc), probes.tools) is Ok
            && probes.gdb_port is Free && !(probes.rtt_port is Free) ==> preflight_outcome(config, probes).1
            == Err::<(Seq<char>, Seq<char>), Seq<char>>(
            port_check(config.host@, config.rtt_port@, "RTT"@, probes.rtt_port)->Err_0,
        ),
        tools_choice(config::opt_view(config.jlink_gdb_server), config::opt_view(config.nc), probes.tools) matches Ok(t)
            ==> (probes.gdb_port is Free && probes.rtt_port is Free ==> preflight_outcome(config, probes).1
            == Ok::<(Seq<char>, Seq<char>), Seq<char>>(t)),
        tools_choice(config::opt_view(config.jlink_gdb_server), config::opt_view(config.nc), probes.tools) matches Err(e)
            ==> preflight_outcome(config, probes) == (None::<Seq<char>>, Err::<(Seq<char>, Seq<char>), Seq<char>>(e)),
        forall|host: Seq<char>, port: Seq<char>, name: Seq<char>, probe: PortProbe|
            #[trigger] port_check(host, port, name, probe) is Ok <==> probe is Free,
        forall|host: Seq<char>, port: Seq<char>, name: Seq<char>|
            #[trigger] port_check(host, port, name, PortProbe::InUse) == Err::<(), Seq<char>>(
                port_in_use_message_of(name, host + ":"@ + port, port, text::lowercase_text(name)),
            ),
{
}

} // verus!
