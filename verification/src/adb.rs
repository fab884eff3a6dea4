//! The client for the device, reached through the `adb` executable: the
//! arguments each operation hands to adb, and what adb's output means. The
//! program around the library runs adb with these arguments.
use vstd::prelude::*;

use crate::app::{devices_view, entries_view, strings_view};
use crate::error::{err_text, err_view, AppError, ErrView};
use crate::ops::{Outcome, OutcomeView};
use crate::file_entry::{opt_view, Device, DeviceView, EntryView, FileEntry, FileKind};
use crate::text::{
    all_digits, chars_of, digits_value, str_eq, lemma_split_on_len, parse_u64, push_text, seq_contains,
    lemma_split_concat, lemma_split_first, lemma_split_none, shell_quote, shell_quoted, split_on, split_text, str_contains, text, trim_cr, without_cr,
};

verus! {

/// The client for one device; `serial` picks the device when several are
/// connected.
pub struct AdbClient {
    pub serial: Option<String>,
}

/// The arguments that pick the device: `-s SERIAL` when a serial is known.
pub open spec fn serial_prefix(serial: Option<Seq<char>>) -> Seq<Seq<char>> {
    match serial {
        Some(s) => seq!["-s"@, s],
        None => Seq::empty(),
    }
}

/// The arguments for adb: the device's serial, then those of the operation,
/// each its own argument.
pub fn adb_args(serial: &Option<String>, op: &[String]) -> (r: Vec<String>)
    ensures
        strings_view(r@) == serial_prefix(opt_view(*serial)) + strings_view(op@),
{
    let mut out: Vec<String> = Vec::new();
    if let Some(s) = serial {
        out.push(text("-s"));
        out.push(s.clone());
    }
    let ghost pre = strings_view(out@);
    assert(pre =~= serial_prefix(opt_view(*serial)));
    let mut i: usize = 0;
    while i < op.len()
        invariant
            i <= op.len(),
            strings_view(out@) =~= pre + strings_view(op@).take(i as int),
        decreases op.len() - i,
    {
        let ghost before = strings_view(out@);
        out.push(op[i].clone());
        assert(strings_view(out@) =~= before.push(op@[i as int]@));
        assert(strings_view(op@).take(i + 1) =~= strings_view(op@).take(i as int).push(op@[i as int]@));
        i = i + 1;
    }
    assert(strings_view(op@).take(op.len() as int) =~= strings_view(op@));
    out
}

/// The shell command that lists a directory on the device, one line per
/// entry: its type letter, size, modification time and name, separated by
/// tabs. Hidden entries are listed; `.` and `..` are not.
pub open spec fn list_command(path: Seq<char>) -> Seq<char> {
    "find "@ + shell_quoted(path) + " -mindepth 1 -maxdepth 1 -printf '%y\\t%s\\t%TY-%Tm-%Td %TH:%TM\\t%f\\n'"@
}

/// The shell command that creates a directory on the device.
pub open spec fn mkdir_command(path: Seq<char>) -> Seq<char> {
    "mkdir "@ + shell_quoted(path)
}

/// The shell command that deletes on the device: a directory with its
/// contents when `recursive`; without it a directory is refused.
pub open spec fn delete_command(path: Seq<char>, recursive: bool) -> Seq<char> {
    (if recursive { "rm -r "@ } else { "rm "@ }) + shell_quoted(path)
}

/// The shell command that renames on the device.
pub open spec fn rename_command(from: Seq<char>, to: Seq<char>) -> Seq<char> {
    "mv "@ + shell_quoted(from) + " "@ + shell_quoted(to)
}

fn shell_args(serial: &Option<String>, command: String) -> (r: Vec<String>)
    ensures
        strings_view(r@) == serial_prefix(opt_view(*serial)) + seq!["shell"@, command@],
{
    let op = vec![text("shell"), command];
    assert(strings_view(op@) =~= seq!["shell"@, op@[1]@]);
    adb_args(serial, op.as_slice())
}

impl AdbClient {
    /// A client for the device with this serial, or for the only device;
    /// without `adb` on the search path there is none.
    pub fn new(serial: Option<String>, adb_found: bool) -> (r: Result<AdbClient, AppError>)
        ensures
            adb_found ==> (r matches Ok(c) && c.serial == serial),
            !adb_found ==> (r matches Err(e) && e is AdbNotFound),
    {
        if adb_found {
            Ok(AdbClient { serial })
        } else {
            Err(AppError::AdbNotFound)
        }
    }

    /// The arguments that ask adb for the connected devices.
    pub fn device_list(&self) -> (r: Vec<String>)
        ensures
            strings_view(r@) == seq!["devices"@],
    {
        let r = vec![text("devices")];
        assert(strings_view(r@) =~= seq!["devices"@]);
        r
    }

    /// The arguments that list a directory on the device.
    pub fn list_dir(&self, path: &str) -> (r: Vec<String>)
        ensures
            strings_view(r@) == serial_prefix(opt_view(self.serial)) + seq!["shell"@, list_command(path@)],
    {
        let mut c = text("find ");
        push_text(&mut c, shell_quote(path).as_str());
        push_text(&mut c, " -mindepth 1 -maxdepth 1 -printf '%y\\t%s\\t%TY-%Tm-%Td %TH:%TM\\t%f\\n'");
        shell_args(&self.serial, c)
    }

    /// The arguments that list a directory on the device with `ls -la`.
    pub fn list_plain(&self, path: &str) -> (r: Vec<String>)
        ensures
            strings_view(r@) == serial_prefix(opt_view(self.serial)) + seq![
                "shell"@,
                "ls -la "@ + shell_quoted(path@),
            ],
    {
        let mut c = text("ls -la ");
        push_text(&mut c, shell_quote(path).as_str());
        shell_args(&self.serial, c)
    }

    /// The arguments that copy a local file or directory to the device.
    pub fn push(&self, local: &str, remote: &str) -> (r: Vec<String>)
        ensures
            strings_view(r@) == serial_prefix(opt_view(self.serial)) + seq!["push"@, local@, remote@],
    {
        let op = vec![text("push"), text(local), text(remote)];
        assert(strings_view(op@) =~= seq!["push"@, local@, remote@]);
        adb_args(&self.serial, op.as_slice())
    }

    /// The arguments that copy a file or directory from the device.
    pub fn pull(&self, remote: &str, local: &str) -> (r: Vec<String>)
        ensures
            strings_view(r@) == serial_prefix(opt_view(self.serial)) + seq!["pull"@, remote@, local@],
    {
        let op = vec![text("pull"), text(remote), text(local)];
        assert(strings_view(op@) =~= seq!["pull"@, remote@, local@]);
        adb_args(&self.serial, op.as_slice())
    }

    /// The arguments that create a directory on the device.
    pub fn mkdir(&self, path: &str) -> (r: Vec<String>)
        ensures
            strings_view(r@) == serial_prefix(opt_view(self.serial)) + seq!["shell"@, mkdir_command(path@)],
    {
        let mut c = text("mkdir ");
        push_text(&mut c, shell_quote(path).as_str());
        shell_args(&self.serial, c)
    }

    /// The arguments that delete a file, or a directory with its contents
    /// when `recursive`, on the device.
    pub fn delete(&self, path: &str, recursive: bool) -> (r: Vec<String>)
        ensures
            strings_view(r@) == serial_prefix(opt_view(self.serial)) + seq![
                "shell"@,
                delete_command(path@, recursive),
            ],
    {
        let mut c = if recursive {
            text("rm -r ")
        } else {
            text("rm ")
        };
        push_text(&mut c, shell_quote(path).as_str());
        shell_args(&self.serial, c)
    }

    /// The arguments that rename a file or directory on the device.
    pub fn rename(&self, from: &str, to: &str) -> (r: Vec<String>)
        ensures
            strings_view(r@) == serial_prefix(opt_view(self.serial)) + seq![
                "shell"@,
                rename_command(from@, to@),
            ],
    {
        let mut c = text("mv ");
        push_text(&mut c, shell_quote(from).as_str());
        push_text(&mut c, " ");
        push_text(&mut c, shell_quote(to).as_str());
        shell_args(&self.serial, c)
    }
}

/// How a run of adb ended and what it printed.
pub struct AdbOutput {
    pub success: bool,
    pub stdout: String,
    pub stderr: String,
}

/// The text that explains a failed run: the first line of the error output,
/// or of the standard output when the error output is empty.
pub open spec fn failure_line(stdout: Seq<char>, stderr: Seq<char>) -> Seq<char> {
    let text = if stderr.len() > 0 {
        stderr
    } else {
        stdout
    };
    trim_cr(split_on(text, '\n')[0])
}

/// The error a failure line reports: an unauthorized device, no device, a
/// missing path, a denied path; else an adb error, or a transfer error for
/// a push or pull.
pub open spec fn failure_of(line: Seq<char>, transfer: bool) -> ErrView {
    if seq_contains(line, "unauthorized"@) {
        ErrView::Unauthorized
    } else if seq_contains(line, "no devices/emulators found"@) || seq_contains(line, "not found"@)
        && seq_contains(line, "device"@) {
        ErrView::NoDevice
    } else if seq_contains(line, "No such file or directory"@) {
        ErrView::NotFound(line)
    } else if seq_contains(line, "Permission denied"@) {
        ErrView::PermissionDenied(line)
    } else if transfer {
        ErrView::TransferFailed(line)
    } else {
        ErrView::Adb(line)
    }
}

fn first_failure_line(out: &AdbOutput) -> (r: String)
    ensures
        r@ == failure_line(out.stdout@, out.stderr@),
{
    let source = if out.stderr.as_str().is_empty() {
        out.stdout.as_str()
    } else {
        out.stderr.as_str()
    };
    let mut lines = split_text(source, '\n');
    proof {
        lemma_split_on_len(source@, '\n');
    }
    let first = lines.remove(0);
    without_cr(first)
}

/// The error for a failure line.
pub fn failure(line: String, transfer: bool) -> (r: AppError)
    ensures
        err_view(r) == failure_of(line@, transfer),
{
    if str_contains(line.as_str(), "unauthorized") {
        AppError::Unauthorized
    } else if str_contains(line.as_str(), "no devices/emulators found") || str_contains(
        line.as_str(),
        "not found",
    ) && str_contains(line.as_str(), "device") {
        AppError::NoDevice
    } else if str_contains(line.as_str(), "No such file or directory") {
        AppError::NotFound(line)
    } else if str_contains(line.as_str(), "Permission denied") {
        AppError::PermissionDenied(line)
    } else if transfer {
        AppError::TransferFailed(line)
    } else {
        AppError::Adb(line)
    }
}

/// What a run of adb that changes something (create, rename, delete, push,
/// pull) came to: success, or the error its output reports.
pub fn outcome(out: &AdbOutput, transfer: bool) -> (r: Result<(), AppError>)
    ensures
        out.success ==> r is Ok,
        !out.success ==> (r matches Err(e) && err_view(e) == failure_of(
            failure_line(out.stdout@, out.stderr@),
            transfer,
        )),
{
    if out.success {
        Ok(())
    } else {
        Err(failure(first_failure_line(out), transfer))
    }
}

/// The device a line of `adb devices` names: its serial, a tab, its state.
pub open spec fn device_of_line(line: Seq<char>) -> Option<DeviceView> {
    let f = split_on(trim_cr(line), '\t');
    if f.len() >= 2 && f[0].len() > 0 {
        Some(DeviceView { serial: f[0], state: f[1] })
    } else {
        None
    }
}

/// The devices `adb devices` prints, in order; the header and other lines
/// hold no tab and name none.
pub open spec fn devices_of(out: Seq<char>) -> Seq<DeviceView> {
    split_on(out, '\n').filter_map(|l: Seq<char>| device_of_line(l))
}

fn parse_device(line: String) -> (r: Option<Device>)
    ensures
        match device_of_line(line@) {
            Some(d) => r matches Some(x) && x@ == d,
            None => r is None,
        },
{
    let l = without_cr(line);
    let mut f = split_text(l.as_str(), '\t');
    proof {
        lemma_split_on_len(l@, '\t');
    }
    if f.len() >= 2 && !f[0].as_str().is_empty() {
        assert(f@[0]@.len() > 0);
        let serial = f.remove(0);
        let state = f.remove(0);
        Some(Device { serial, state })
    } else {
        proof {
            if f.len() >= 2 {
                assert(f@[0]@.len() == 0);
            }
        }
        None
    }
}

/// The devices in the output of `adb devices`.
pub fn parse_devices(out: &str) -> (r: Vec<Device>)
    ensures
        devices_view(r@) == devices_of(out@),
{
    let lines = split_text(out, '\n');
    let ghost ls = lines@.map_values(|x: String| x@);
    let ghost f = |l: Seq<char>| device_of_line(l);
    let mut result: Vec<Device> = Vec::new();
    let mut i: usize = 0;
    while i < lines.len()
        invariant
            i <= lines.len(),
            ls == lines@.map_values(|x: String| x@),
            ls == split_on(out@, '\n'),
            f == (|l: Seq<char>| device_of_line(l)),
            devices_view(result@) == ls.take(i as int).filter_map(f),
        decreases lines.len() - i,
    {
        proof {
            ls.lemma_filter_map_take_succ(f, i as int);
        }
        let ghost before = devices_view(result@);
        match parse_device(lines[i].clone()) {
            Some(d) => {
                result.push(d);
                assert(devices_view(result@) =~= before + seq![result@[result@.len() - 1]@]);
            },
            None => {},
        }
        i = i + 1;
    }
    assert(ls.take(lines.len() as int) =~= ls);
    result
}

/// What a run of `adb devices` came to.
pub fn devices_outcome(out: &AdbOutput) -> (r: Result<Vec<Device>, AppError>)
    ensures
        out.success ==> (r matches Ok(v) && devices_view(v@) == devices_of(out.stdout@)),
        !out.success ==> (r matches Err(e) && err_view(e) == failure_of(
            failure_line(out.stdout@, out.stderr@),
            false,
        )),
{
    if out.success {
        Ok(parse_devices(out.stdout.as_str()))
    } else {
        Err(failure(first_failure_line(out), false))
    }
}

/// The kind a type letter of `find -printf %y` names.
pub open spec fn kind_of(c: char) -> FileKind {
    if c == 'd' {
        FileKind::Directory
    } else if c == 'l' {
        FileKind::Symlink
    } else {
        FileKind::File
    }
}

/// The entry a line of the listing describes: four tab-separated fields,
/// the type letter, the size in bytes, the modification time and the name.
/// Other lines (the empty one after the last newline among them) describe
/// none.
pub open spec fn entry_of_line(line: Seq<char>) -> Option<EntryView> {
    let f = split_on(trim_cr(line), '\t');
    if f.len() == 4 && f[0].len() == 1 && f[1].len() > 0 && all_digits(f[1]) && digits_value(f[1])
        <= u64::MAX && f[3].len() > 0 {
        Some(
            EntryView {
                name: f[3],
                kind: kind_of(f[0][0]),
                size: digits_value(f[1]) as u64,
                modified: Some(f[2]),
            },
        )
    } else {
        None
    }
}

/// The kind of a listed entry follows the type letter that starts its line,
/// as `find -printf %y` prints it: a directory exactly for `d`, a link
/// exactly for `l`, a regular file for every other letter, such as `f`.
pub proof fn lemma_listing_kind_follows_type_letter(line: Seq<char>)
    ensures
        entry_of_line(line) matches Some(e) ==> {
            &&& line.len() > 0
            &&& (e.kind == FileKind::Directory <==> line[0] == 'd')
            &&& (e.kind == FileKind::Symlink <==> line[0] == 'l')
            &&& (e.kind == FileKind::File <==> line[0] != 'd' && line[0] != 'l')
            &&& (e.is_directory() <==> line[0] == 'd')
        },
{
    let t = trim_cr(line);
    lemma_split_first(t, '\t');
    let f = split_on(t, '\t');
    if entry_of_line(line) is Some {
        assert(f[0].len() == 1);
        assert(t.take(1)[0] == f[0][0]);
        assert(t[0] == line[0]);
    }
}

/// Every entry of a listing comes from one of its lines, and its kind
/// follows that line's type letter.
pub proof fn lemma_listing_kinds(out: Seq<char>, k: int)
    requires
        0 <= k < listing_of(out).len(),
    ensures
        exists|line: Seq<char>|
            split_on(out, '\n').contains(line) && entry_of_line(line) == Some(#[trigger] listing_of(out)[k])
                && line.len() > 0 && (listing_of(out)[k].kind == FileKind::Directory <==> line[0] == 'd')
                && (listing_of(out)[k].kind == FileKind::File <==> line[0] != 'd' && line[0] != 'l'),
{
    let f = |l: Seq<char>| entry_of_line(l);
    let e = listing_of(out)[k];
    assert(listing_of(out).contains(e));
    split_on(out, '\n').lemma_filter_map_contains(f, e);
    let line = choose|line: Seq<char>| #[trigger] split_on(out, '\n').contains(line) && f(line) == Some(e);
    lemma_listing_kind_follows_type_letter(line);
}

/// A line `SERIAL<tab>STATE` of `adb devices`, with or without a carriage
/// return at its end, names the device with that serial in that state.
pub proof fn lemma_device_line(serial: Seq<char>, state: Seq<char>, cr: bool)
    requires
        serial.len() > 0,
        !serial.contains('\t'),
        !state.contains('\t'),
        state.len() == 0 || state.last() != '\r',
    ensures
        device_of_line(serial + seq!['\t'] + state + if cr { seq!['\r'] } else { Seq::empty() }) == Some(
            DeviceView { serial, state },
        ),
{
    let line = serial + seq!['\t'] + state;
    let full = line + if cr { seq!['\r'] } else { Seq::<char>::empty() };
    if cr {
        assert(full.drop_last() =~= line);
    } else {
        assert(full =~= line);
        assert(line.last() == if state.len() == 0 { '\t' } else { state.last() });
    }
    assert(trim_cr(full) == line);
    lemma_split_concat(serial, state, '\t');
    lemma_split_none(serial, '\t');
    lemma_split_none(state, '\t');
}

/// A line of the `find` listing, `TYPE<tab>SIZE<tab>TIME<tab>NAME`, with a
/// one-letter type and a decimal size, is the entry named NAME, of the size
/// and modification time given, a directory for `d`, a link for `l` and a
/// regular file for any other letter.
pub proof fn lemma_listing_line(c: char, size: Seq<char>, time: Seq<char>, name: Seq<char>)
    requires
        c != '\t',
        size.len() > 0,
        all_digits(size),
        digits_value(size) <= u64::MAX,
        !time.contains('\t'),
        name.len() > 0,
        !name.contains('\t'),
        name.last() != '\r',
    ensures
        entry_of_line(seq![c] + seq!['\t'] + size + seq!['\t'] + time + seq!['\t'] + name) == Some(
            EntryView {
                name,
                kind: if c == 'd' {
                    FileKind::Directory
                } else if c == 'l' {
                    FileKind::Symlink
                } else {
                    FileKind::File
                },
                size: digits_value(size) as u64,
                modified: Some(time),
            },
        ),
{
    let tail2 = time + seq!['\t'] + name;
    let tail1 = size + seq!['\t'] + tail2;
    let line = seq![c] + seq!['\t'] + tail1;
    assert(seq![c] + seq!['\t'] + size + seq!['\t'] + time + seq!['\t'] + name =~= line);
    assert(line.last() == name.last());
    assert(trim_cr(line) == line);
    assert(!size.contains('\t')) by {
        if size.contains('\t') {
            let k = choose|k: int| 0 <= k < size.len() && size[k] == '\t';
            assert(crate::text::is_digit(size[k]));
        }
    }
    assert(!seq![c].contains('\t')) by {
        if seq![c].contains('\t') {
            let k = choose|k: int| 0 <= k < 1 && seq![c][k] == '\t';
        }
    }
    lemma_split_concat(seq![c], tail1, '\t');
    lemma_split_concat(size, tail2, '\t');
    lemma_split_concat(time, name, '\t');
    lemma_split_none(seq![c], '\t');
    lemma_split_none(size, '\t');
    lemma_split_none(time, '\t');
    lemma_split_none(name, '\t');
    let f = split_on(line, '\t');
    assert(f =~= seq![seq![c], size, time, name]);
}

/// The entries a listing prints, in its order.
pub open spec fn listing_of(out: Seq<char>) -> Seq<EntryView> {
    split_on(out, '\n').filter_map(|l: Seq<char>| entry_of_line(l))
}

fn kind_from(c: char) -> (r: FileKind)
    ensures
        r == kind_of(c),
{
    if c == 'd' {
        FileKind::Directory
    } else if c == 'l' {
        FileKind::Symlink
    } else {
        FileKind::File
    }
}

fn parse_entry(line: String) -> (r: Option<FileEntry>)
    ensures
        match entry_of_line(line@) {
            Some(e) => r matches Some(x) && x@ == e,
            None => r is None,
        },
{
    let l = without_cr(line);
    let mut f = split_text(l.as_str(), '\t');
    proof {
        lemma_split_on_len(l@, '\t');
    }
    if f.len() != 4 {
        return None;
    }
    let type_chars = chars_of(f[0].as_str());
    if type_chars.len() != 1 || f[3].as_str().is_empty() {
        proof {
            if type_chars.len() == 1 {
                assert(f@[3]@.len() == 0);
            }
        }
        return None;
    }
    let size = match parse_u64(f[1].as_str()) {
        Some(n) => n,
        None => return None,
    };
    let kind = kind_from(type_chars[0]);
    let name = f.remove(3);
    let modified = f.remove(2);
    Some(FileEntry { name, kind, size, modified: Some(modified) })
}

/// The entries in the output of a listing.
pub fn parse_listing(out: &str) -> (r: Vec<FileEntry>)
    ensures
        entries_view(r@) == listing_of(out@),
{
    let lines = split_text(out, '\n');
    let ghost ls = lines@.map_values(|x: String| x@);
    let ghost f = |l: Seq<char>| entry_of_line(l);
    let mut result: Vec<FileEntry> = Vec::new();
    let mut i: usize = 0;
    while i < lines.len()
        invariant
            i <= lines.len(),
            ls == lines@.map_values(|x: String| x@),
            ls == split_on(out@, '\n'),
            f == (|l: Seq<char>| entry_of_line(l)),
            entries_view(result@) == ls.take(i as int).filter_map(f),
        decreases lines.len() - i,
    {
        proof {
            ls.lemma_filter_map_take_succ(f, i as int);
        }
        let ghost before = entries_view(result@);
        match parse_entry(lines[i].clone()) {
            Some(e) => {
                result.push(e);
                assert(entries_view(result@) =~= before + seq![result@[result@.len() - 1]@]);
            },
            None => {},
        }
        i = i + 1;
    }
    assert(ls.take(lines.len() as int) =~= ls);
    result
}

/// What a listing on the device came to.
pub fn listing_outcome(out: &AdbOutput) -> (r: Result<Vec<FileEntry>, AppError>)
    ensures
        out.success ==> (r matches Ok(v) && entries_view(v@) == listing_of(out.stdout@)),
        !out.success ==> (r matches Err(e) && err_view(e) == failure_of(
            failure_line(out.stdout@, out.stderr@),
            false,
        )),
{
    if out.success {
        Ok(parse_listing(out.stdout.as_str()))
    } else {
        Err(failure(first_failure_line(out), false))
    }
}

/// The words of a line: the runs of characters between spaces.
pub open spec fn words(line: Seq<char>) -> Seq<Seq<char>> {
    split_on(line, ' ').filter(|w: Seq<char>| w.len() > 0)
}

/// The words before the `->` that `ls -l` puts between a link and its
/// target.
pub open spec fn before_arrow(ws: Seq<Seq<char>>) -> Seq<Seq<char>>
    decreases ws.len(),
{
    if ws.len() == 0 || ws[0] == "->"@ {
        Seq::empty()
    } else {
        seq![ws[0]] + before_arrow(ws.drop_first())
    }
}

/// The words joined with single spaces.
pub open spec fn joined_words(ws: Seq<Seq<char>>) -> Seq<char>
    decreases ws.len(),
{
    if ws.len() == 0 {
        Seq::empty()
    } else if ws.len() == 1 {
        ws[0]
    } else {
        joined_words(ws.drop_last()) + " "@ + ws.last()
    }
}

/// The entry a line of `ls -la` describes: the mode (its first letter the
/// kind), links, owner, group, size, date, time, then the name (for a link,
/// the words before `->`). Other lines, such as the total, `.` and `..`,
/// describe none. Runs of spaces in a name read as one.
pub open spec fn ls_entry_of_line(line: Seq<char>) -> Option<EntryView> {
    let w = words(trim_cr(line));
    if w.len() >= 8 && w[0].len() > 0 && w[4].len() > 0 && all_digits(w[4]) && digits_value(w[4])
        <= u64::MAX {
        let kind = kind_of(w[0][0]);
        let name = joined_words(
            if kind == FileKind::Symlink {
                before_arrow(w.skip(7))
            } else {
                w.skip(7)
            },
        );
        if name.len() > 0 && name != "."@ && name != ".."@ {
            Some(
                EntryView {
                    name,
                    kind,
                    size: digits_value(w[4]) as u64,
                    modified: Some(w[5] + " "@ + w[6]),
                },
            )
        } else {
            None
        }
    } else {
        None
    }
}

/// The entries `ls -la` prints, in its order.
pub open spec fn ls_listing_of(out: Seq<char>) -> Seq<EntryView> {
    split_on(out, '\n').filter_map(|l: Seq<char>| ls_entry_of_line(l))
}

fn words_of(line: &str) -> (r: Vec<String>)
    ensures
        strings_view(r@) == words(line@),
{
    let pieces = split_text(line, ' ');
    let ghost ps = strings_view(pieces@);
    let ghost pred = |w: Seq<char>| w.len() > 0;
    let mut out: Vec<String> = Vec::new();
    let mut i: usize = 0;
    while i < pieces.len()
        invariant
            i <= pieces.len(),
            ps == strings_view(pieces@),
            ps == split_on(line@, ' '),
            pred == (|w: Seq<char>| w.len() > 0),
            strings_view(out@) == ps.take(i as int).filter(pred),
        decreases pieces.len() - i,
    {
        proof {
            reveal(Seq::filter);
            assert(ps.take(i + 1).drop_last() =~= ps.take(i as int));
            assert(ps.take(i + 1).last() == pieces@[i as int]@);
        }
        let ghost before = strings_view(out@);
        if !pieces[i].as_str().is_empty() {
            out.push(pieces[i].clone());
            assert(strings_view(out@) =~= before.push(pieces@[i as int]@));
        }
        i = i + 1;
    }
    assert(ps.take(pieces.len() as int) =~= ps);
    out
}

/// The words of `ws` from position `from` on, up to the arrow when `arrow`.
fn name_words(ws: &Vec<String>, from: usize, arrow: bool) -> (r: Vec<String>)
    requires
        from <= ws.len(),
    ensures
        strings_view(r@) == if arrow {
            before_arrow(strings_view(ws@).skip(from as int))
        } else {
            strings_view(ws@).skip(from as int)
        },
{
    let ghost all = strings_view(ws@);
    let mut out: Vec<String> = Vec::new();
    let mut k: usize = from;
    while k < ws.len()
        invariant
            from <= k <= ws.len(),
            all == strings_view(ws@),
            arrow ==> before_arrow(all.skip(from as int)) == strings_view(out@) + before_arrow(all.skip(k as int)),
            !arrow ==> strings_view(out@) == all.subrange(from as int, k as int),
        decreases ws.len() - k,
    {
        proof {
            assert(all.skip(k as int).drop_first() =~= all.skip(k + 1));
            assert(all.skip(k as int)[0] == ws@[k as int]@);
        }
        if arrow && str_eq(ws[k].as_str(), "->") {
            assert(before_arrow(all.skip(k as int)) =~= Seq::<Seq<char>>::empty());
            assert(strings_view(out@) + Seq::<Seq<char>>::empty() =~= strings_view(out@));
            return out;
        }
        let ghost before = strings_view(out@);
        out.push(ws[k].clone());
        assert(strings_view(out@) =~= before.push(ws@[k as int]@));
        proof {
            if arrow {
                assert(before + before_arrow(all.skip(k as int)) =~= before.push(ws@[k as int]@)
                    + before_arrow(all.skip(k + 1)));
            } else {
                assert(all.subrange(from as int, k + 1) =~= all.subrange(from as int, k as int).push(
                    ws@[k as int]@,
                ));
            }
        }
        k = k + 1;
    }
    proof {
        assert(all.skip(ws.len() as int) =~= Seq::<Seq<char>>::empty());
        assert(strings_view(out@) + Seq::<Seq<char>>::empty() =~= strings_view(out@));
        assert(all.subrange(from as int, ws.len() as int) =~= all.skip(from as int));
    }
    out
}

fn join_words(ws: &Vec<String>) -> (r: String)
    ensures
        r@ == joined_words(strings_view(ws@)),
{
    let ghost all = strings_view(ws@);
    let mut out = String::new();
    let mut k: usize = 0;
    while k < ws.len()
        invariant
            k <= ws.len(),
            all == strings_view(ws@),
            out@ == joined_words(all.take(k as int)),
        decreases ws.len() - k,
    {
        proof {
            assert(all.take(k + 1).drop_last() =~= all.take(k as int));
            assert(all.take(k + 1).last() == ws@[k as int]@);
        }
        if k > 0 {
            push_text(&mut out, " ");
        } else {
            assert(out@ =~= Seq::<char>::empty());
        }
        push_text(&mut out, ws[k].as_str());
        k = k + 1;
    }
    assert(all.take(ws.len() as int) =~= all);
    out
}

fn parse_ls_entry(line: String) -> (r: Option<FileEntry>)
    ensures
        match ls_entry_of_line(line@) {
            Some(e) => r matches Some(x) && x@ == e,
            None => r is None,
        },
{
    let l = without_cr(line);
    let w = words_of(l.as_str());
    if w.len() < 8 || w[0].as_str().is_empty() {
        return None;
    }
    let size = match parse_u64(w[4].as_str()) {
        Some(n) => n,
        None => return None,
    };
    let mode = chars_of(w[0].as_str());
    let kind = kind_from(mode[0]);
    let is_link = match kind {
        FileKind::Symlink => true,
        _ => false,
    };
    let ns = name_words(&w, 7, is_link);
    let name = join_words(&ns);
    if name.as_str().is_empty() || str_eq(name.as_str(), ".") || str_eq(name.as_str(), "..") {
        return None;
    }
    let mut modified = w[5].clone();
    push_text(&mut modified, " ");
    push_text(&mut modified, w[6].as_str());
    Some(FileEntry { name, kind, size, modified: Some(modified) })
}

/// The entries in the output of `ls -la`.
pub fn parse_ls(out: &str) -> (r: Vec<FileEntry>)
    ensures
        entries_view(r@) == ls_listing_of(out@),
{
    let lines = split_text(out, '\n');
    let ghost ls = lines@.map_values(|x: String| x@);
    let ghost f = |l: Seq<char>| ls_entry_of_line(l);
    let mut result: Vec<FileEntry> = Vec::new();
    let mut i: usize = 0;
    while i < lines.len()
        invariant
            i <= lines.len(),
            ls == lines@.map_values(|x: String| x@),
            ls == split_on(out@, '\n'),
            f == (|l: Seq<char>| ls_entry_of_line(l)),
            entries_view(result@) == ls.take(i as int).filter_map(f),
        decreases lines.len() - i,
    {
        proof {
            ls.lemma_filter_map_take_succ(f, i as int);
        }
        let ghost before = entries_view(result@);
        match parse_ls_entry(lines[i].clone()) {
            Some(e) => {
                result.push(e);
                assert(entries_view(result@) =~= before + seq![result@[result@.len() - 1]@]);
            },
            None => {},
        }
        i = i + 1;
    }
    assert(ls.take(lines.len() as int) =~= ls);
    result
}

/// What a listing on the device came to, as the outcome the browser takes:
/// the entries printed by `find` (or by `ls -la` when `plain`), or the
/// error. A generic adb error from `find`, as when it lacks `-printf`, asks
/// for the `ls -la` listing instead.
pub open spec fn device_listing_of(success: bool, stdout: Seq<char>, stderr: Seq<char>, plain: bool) -> OutcomeView {
    if success {
        OutcomeView::Listed(Ok(if plain { ls_listing_of(stdout) } else { listing_of(stdout) }))
    } else {
        let e = failure_of(failure_line(stdout, stderr), false);
        if !plain && e is Adb {
            OutcomeView::Unsupported
        } else {
            OutcomeView::Listed(Err(err_text(e)))
        }
    }
}

/// The outcome of a listing on the device.
pub fn device_listing(out: &AdbOutput, plain: bool) -> (r: Outcome)
    ensures
        r@ == device_listing_of(out.success, out.stdout@, out.stderr@, plain),
{
    if out.success {
        if plain {
            Outcome::Listed(Ok(parse_ls(out.stdout.as_str())))
        } else {
            Outcome::Listed(Ok(parse_listing(out.stdout.as_str())))
        }
    } else {
        let e = failure(first_failure_line(out), false);
        let generic = match &e {
            AppError::Adb(_) => true,
            _ => false,
        };
        if !plain && generic {
            Outcome::Unsupported
        } else {
            Outcome::Listed(Err(e.message()))
        }
    }
}

/// adb's error lines are told apart by what they say: an unauthorized
/// device first, then a missing device, a missing path and a denied path,
/// each of the last two carrying the line; any other line is a generic adb
/// error, or a transfer error for a push or pull.
pub proof fn lemma_failure_classes(line: Seq<char>, transfer: bool)
    ensures
        seq_contains(line, "unauthorized"@) ==> failure_of(line, transfer) == ErrView::Unauthorized,
        !seq_contains(line, "unauthorized"@) && seq_contains(line, "no devices/emulators found"@)
            ==> failure_of(line, transfer) == ErrView::NoDevice,
        ({
            let other = !seq_contains(line, "unauthorized"@) && !seq_contains(
                line,
                "no devices/emulators found"@,
            ) && !(seq_contains(line, "not found"@) && seq_contains(line, "device"@));
            &&& other && seq_contains(line, "No such file or directory"@) ==> failure_of(line, transfer)
                == ErrView::NotFound(line)
            &&& other && !seq_contains(line, "No such file or directory"@) && seq_contains(
                line,
                "Permission denied"@,
            ) ==> failure_of(line, transfer) == ErrView::PermissionDenied(line)
            &&& other && !seq_contains(line, "No such file or directory"@) && !seq_contains(
                line,
                "Permission denied"@,
            ) ==> failure_of(line, transfer) == if transfer {
                ErrView::TransferFailed(line)
            } else {
                ErrView::Adb(line)
            }
        }),
{
}

/// The device's shell reads each command as the tool and its options
/// followed by the path as one word, whatever the path holds: `mkdir`,
/// `rm` (with `-r` exactly when recursive) and `ls -la`.
pub proof fn lemma_commands_keep_paths_whole(path: Seq<char>, recursive: bool)
    ensures
        mkdir_command(path).take(6) == "mkdir "@,
        crate::text::shell_reads(mkdir_command(path).skip(6), crate::text::QuoteState::Outside) == Some(path),
        recursive ==> delete_command(path, recursive).take(6) == "rm -r "@ && crate::text::shell_reads(
            delete_command(path, recursive).skip(6),
            crate::text::QuoteState::Outside,
        ) == Some(path),
        !recursive ==> delete_command(path, recursive).take(3) == "rm "@ && crate::text::shell_reads(
            delete_command(path, recursive).skip(3),
            crate::text::QuoteState::Outside,
        ) == Some(path),
{
    reveal_strlit("mkdir ");
    reveal_strlit("rm -r ");
    reveal_strlit("rm ");
    crate::text::lemma_shell_reads_quoted(path);
    assert(mkdir_command(path).take(6) =~= "mkdir "@);
    assert(mkdir_command(path).skip(6) =~= shell_quoted(path));
    if recursive {
        assert(delete_command(path, recursive).take(6) =~= "rm -r "@);
        assert(delete_command(path, recursive).skip(6) =~= shell_quoted(path));
    } else {
        assert(delete_command(path, recursive).take(3) =~= "rm "@);
        assert(delete_command(path, recursive).skip(3) =~= shell_quoted(path));
    }
}

/// adb is pointed at the device by `-s SERIAL` when a serial is known, and
/// is handed the operation's arguments alone otherwise.
pub proof fn lemma_serial_prefix(serial: Seq<char>)
    ensures
        serial_prefix(Some(serial)) == seq!["-s"@, serial],
        serial_prefix(None) == Seq::<Seq<char>>::empty(),
{
}

} // verus!
