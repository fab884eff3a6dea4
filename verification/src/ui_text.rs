//! The text the screen shows: pane titles and rows, the transfer and status
//! bars, and the lines of the dialogs.
use vstd::prelude::*;
use vstd::string::StringSliceAdditionalSpecFns;
use vstd::utf8::encode_utf8;

use crate::app::{App, InputMode, Pane, PaneState};
use crate::file_entry::{format_size, size_text, Device, EntryView, FileEntry, FileKind};
use crate::text::{chars_of, decimal, push_char, push_decimal, push_text, str_eq, text};
use crate::transfer::{JobView, QueueView, TransferJob, TransferQueue, TransferStatus};

verus! {

/// `n` spaces.
pub open spec fn spaces(n: nat) -> Seq<char> {
    Seq::new(n, |i: int| ' ')
}

/// The text padded with spaces on the right to `width` characters.
pub open spec fn pad_right(s: Seq<char>, width: nat) -> Seq<char> {
    if s.len() < width {
        s + spaces((width - s.len()) as nat)
    } else {
        s
    }
}

/// The text padded with spaces on the left to `width` characters.
pub open spec fn pad_left(s: Seq<char>, width: nat) -> Seq<char> {
    if s.len() < width {
        spaces((width - s.len()) as nat) + s
    } else {
        s
    }
}

fn push_spaces(s: &mut String, n: usize)
    ensures
        final(s)@ == old(s)@ + spaces(n as nat),
{
    let mut k: usize = 0;
    while k < n
        invariant
            k <= n,
            s@ == old(s)@ + spaces(k as nat),
        decreases n - k,
    {
        push_char(s, ' ');
        assert(old(s)@ + spaces((k + 1) as nat) =~= (old(s)@ + spaces(k as nat)).push(' '));
        k = k + 1;
    }
}

/// The pane's name in its title.
pub open spec fn pane_label(pane: Pane) -> Seq<char> {
    match pane {
        Pane::Local => "Local"@,
        Pane::Android => "Android"@,
    }
}

/// The title of a pane: its name and its directory.
pub fn pane_title(pane: Pane, path: &str) -> (r: String)
    ensures
        r@ == " "@ + pane_label(pane) + " "@ + path@ + " "@,
{
    let mut out = text(" ");
    match pane {
        Pane::Local => push_text(&mut out, "Local"),
        Pane::Android => push_text(&mut out, "Android"),
    }
    push_text(&mut out, " ");
    push_text(&mut out, path);
    push_text(&mut out, " ");
    out
}

/// The one line a pane shows instead of rows, if any: while loading, when
/// the directory is empty, and when no entry passes the filter.
pub fn pane_placeholder(state: &PaneState) -> (r: Option<String>)
    ensures
        match r {
            Some(t) => if state@.loading {
                t@ == "  Loading..."@
            } else if state@.entries.len() == 0 {
                t@ == "  (empty)"@
            } else {
                state@.filtered_positions().len() == 0 && t@ == "  (no matches)"@
            },
            None => !state@.loading && state@.entries.len() > 0 && state@.filtered_positions().len() > 0,
        },
{
    if state.loading {
        return Some(text("  Loading..."));
    }
    if state.entries.len() == 0 {
        return Some(text("  (empty)"));
    }
    let filtered = state.filtered_entries();
    proof {
        assert(filtered@.map_values(|p: (usize, &FileEntry)| p.0).len() == filtered@.len());
    }
    if filtered.len() == 0 {
        Some(text("  (no matches)"))
    } else {
        None
    }
}

/// The room left for a name in a row of a pane `area_width` columns wide:
/// four columns of border and marker, ten of size.
pub open spec fn name_room(area_width: u16) -> nat {
    let width: nat = if area_width >= 4 { (area_width - 4) as nat } else { 0 };
    if width >= 10 {
        (width - 10) as nat
    } else {
        0
    }
}

/// The byte at which a name too long for its room is cut.
pub open spec fn cut_at(room: nat) -> nat {
    if room >= 1 {
        (room - 1) as nat
    } else {
        0
    }
}

/// The marker after a directory's name.
pub open spec fn marker(e: EntryView) -> Seq<char> {
    if e.kind == FileKind::Directory {
        "/"@
    } else {
        Seq::empty()
    }
}

/// The size column of a row: nothing for a directory.
pub open spec fn size_column(e: EntryView) -> Seq<char> {
    if e.is_directory() {
        Seq::empty()
    } else {
        size_text(e.size)
    }
}

/// The bytes UTF-8 takes for a character.
pub open spec fn utf8_len(c: char) -> nat {
    if (c as u32) < 0x80 {
        1
    } else if (c as u32) < 0x800 {
        2
    } else if (c as u32) < 0x10000 {
        3
    } else {
        4
    }
}

/// How many characters from the start of `s` fit in `limit` bytes of UTF-8.
pub open spec fn chars_within(s: Seq<char>, limit: nat) -> nat
    decreases s.len(),
{
    if s.len() > 0 && utf8_len(s[0]) <= limit {
        1 + chars_within(s.drop_first(), (limit - utf8_len(s[0])) as nat)
    } else {
        0
    }
}

/// The name column of a row: a name longer than its room (counted in bytes)
/// is cut to the whole characters that fit before the last byte of the room
/// and ends in `...`; a shorter one is padded with spaces to the room.
pub open spec fn name_column(e: EntryView, area_width: u16) -> Seq<char> {
    let room = name_room(area_width);
    if encode_utf8(e.name).len() > room {
        e.name.take(chars_within(e.name, cut_at(room)) as int) + "..."@
    } else {
        pad_right(e.name, room)
    }
}

fn char_bytes(c: char) -> (r: usize)
    ensures
        r == utf8_len(c),
{
    let v = c as u32;
    if v < 0x80 {
        1
    } else if v < 0x800 {
        2
    } else if v < 0x10000 {
        3
    } else {
        4
    }
}

/// Appends the characters of `name` that fit in `limit` bytes.
fn push_head(out: &mut String, name: &str, limit: usize)
    ensures
        final(out)@ == old(out)@ + name@.take(chars_within(name@, limit as nat) as int),
{
    let cs = chars_of(name);
    let mut i: usize = 0;
    let mut rem: usize = limit;
    assert(name@.skip(0) =~= name@);
    assert(name@.take(0) =~= Seq::<char>::empty());
    while i < cs.len() && char_bytes(cs[i]) <= rem
        invariant
            i <= cs.len(),
            cs@ == name@,
            chars_within(name@, limit as nat) == i + chars_within(name@.skip(i as int), rem as nat),
            out@ == old(out)@ + name@.take(i as int),
        decreases cs.len() - i,
    {
        let b = char_bytes(cs[i]);
        proof {
            assert(name@.skip(i as int).drop_first() =~= name@.skip(i + 1));
            assert(name@.skip(i as int)[0] == cs@[i as int]);
        }
        push_char(out, cs[i]);
        assert(name@.take(i + 1) =~= name@.take(i as int).push(cs@[i as int]));
        rem = rem - b;
        i = i + 1;
    }
    proof {
        if i < cs.len() {
            assert(name@.skip(i as int)[0] == cs@[i as int]);
        } else {
            assert(name@.skip(i as int).len() == 0);
        }
    }
}

/// The two parts of a pane's row for an entry: the name with its marker, and
/// the size right-aligned in ten columns. The name's length in bytes fits a
/// `usize`, as that of every string in memory does.
pub fn entry_row(entry: &FileEntry, area_width: u16) -> (r: (String, String))
    requires
        encode_utf8(entry.name@).len() <= usize::MAX,
    ensures
        r.0@ == " "@ + name_column(entry@, area_width) + marker(entry@),
        r.1@ == pad_left(size_column(entry@), 10),
{
    let width: usize = if area_width >= 4 { (area_width - 4) as usize } else { 0 };
    let room: usize = if width >= 10 { width - 10 } else { 0 };
    let mut left = text(" ");
    let name = entry.name.as_str();
    if name.len() > room {
        let end: usize = if room >= 1 { room - 1 } else { 0 };
        push_head(&mut left, name, end);
        push_text(&mut left, "...");
        assert(left@ == " "@ + name_column(entry@, area_width));
    } else {
        push_text(&mut left, name);
        let n: usize = chars_of(name).len();
        if n < room {
            push_spaces(&mut left, room - n);
            assert(left@ =~= " "@ + pad_right(entry.name@, room as nat));
        } else {
            assert(left@ =~= " "@ + pad_right(entry.name@, room as nat));
        }
        assert(left@ == " "@ + name_column(entry@, area_width));
    }
    if entry.is_dir() {
        push_text(&mut left, "/");
    } else {
        proof {
            assert(left@ + Seq::<char>::empty() =~= left@);
        }
    }
    let size_str = if entry.is_dir() {
        String::new()
    } else {
        format_size(entry.size)
    };
    let mut right = String::new();
    let n: usize = chars_of(size_str.as_str()).len();
    if n < 10 {
        push_spaces(&mut right, 10 - n);
    }
    push_text(&mut right, size_str.as_str());
    proof {
        assert(right@ =~= pad_left(size_column(entry@), 10));
    }
    (left, right)
}

/// The number of jobs with the given status.
pub open spec fn count_status(q: QueueView, status: TransferStatus) -> nat {
    q.jobs.filter(|j: JobView| j.status == status).len()
}

fn count_jobs(q: &TransferQueue, status: TransferStatus) -> (r: usize)
    ensures
        r == count_status(q@, status),
{
    let ghost pred = |j: JobView| j.status == status;
    let mut n: usize = 0;
    let mut i: usize = 0;
    while i < q.jobs.len()
        invariant
            i <= q.jobs.len(),
            n <= i,
            pred == (|j: JobView| j.status == status),
            n == q@.jobs.take(i as int).filter(pred).len(),
        decreases q.jobs.len() - i,
    {
        proof {
            reveal(Seq::filter);
            assert(q@.jobs.take(i + 1).drop_last() =~= q@.jobs.take(i as int));
            assert(q@.jobs[i as int] == q.jobs@[i as int]@);
        }
        if q.jobs[i].status == status {
            n = n + 1;
        }
        i = i + 1;
    }
    assert(q@.jobs.take(q.jobs.len() as int) =~= q@.jobs);
    n
}

/// The transfer bar: the job in progress, else how many jobs completed and
/// failed, else nothing.
pub open spec fn transfer_bar(q: QueueView) -> Seq<char> {
    match q.first_with(TransferStatus::InProgress) {
        Some(i) => " Transferring: "@ + q.jobs[i].source + " -> "@ + q.jobs[i].destination,
        None => {
            let c = count_status(q, TransferStatus::Completed);
            let f = count_status(q, TransferStatus::Failed);
            if c + f > 0 {
                " Transfers: "@ + decimal(c) + " completed, "@ + decimal(f) + " failed"@
            } else {
                Seq::empty()
            }
        },
    }
}

/// The text of the transfer bar.
pub fn transfer_bar_text(q: &TransferQueue) -> (r: String)
    ensures
        r@ == transfer_bar(q@),
{
    if let Some(job) = q.active_job() {
        let mut out = text(" Transferring: ");
        push_text(&mut out, job.source.as_str());
        push_text(&mut out, " -> ");
        push_text(&mut out, job.destination.as_str());
        return out;
    }
    let completed = count_jobs(q, TransferStatus::Completed);
    let failed = count_jobs(q, TransferStatus::Failed);
    if completed > 0 || failed > 0 {
        let mut out = text(" Transfers: ");
        push_decimal(&mut out, completed as u128);
        push_text(&mut out, " completed, ");
        push_decimal(&mut out, failed as u128);
        push_text(&mut out, " failed");
        out
    } else {
        String::new()
    }
}

/// The two halves of the status bar: the message (or the filter being
/// edited) and the key help.
pub fn status_bar_texts(app: &App) -> (r: (String, String))
    ensures
        app@.input_mode == InputMode::Normal ==> r.0@ == " "@ + app@.status && r.1@
            == " q:quit  Tab:switch  c:copy  d:delete  ?:help "@,
        app@.input_mode == InputMode::Filter ==> r.0@ == " Filter: "@ + app@.filter_buffer && r.1@
            == " Enter/Esc:done "@,
{
    match app.input_mode {
        InputMode::Normal => {
            let mut left = text(" ");
            push_text(&mut left, app.status_message.as_str());
            (left, text(" q:quit  Tab:switch  c:copy  d:delete  ?:help "))
        },
        InputMode::Filter => {
            let mut left = text(" Filter: ");
            push_text(&mut left, app.filter_buffer.as_str());
            (left, text(" Enter/Esc:done "))
        },
    }
}

/// How many paths the delete dialog lists by name.
pub const LISTED_PATHS: usize = 10;

/// The lines of the delete dialog for these paths: the first ten, indented,
/// then how many more there are.
pub open spec fn delete_lines(paths: Seq<Seq<char>>) -> Seq<Seq<char>> {
    let shown: nat = if paths.len() < LISTED_PATHS { paths.len() } else { LISTED_PATHS as nat };
    let listed = Seq::new(shown, |i: int| "  "@ + paths[i]);
    if paths.len() > LISTED_PATHS {
        listed.push("  ... and "@ + decimal((paths.len() - LISTED_PATHS) as nat) + " more"@)
    } else {
        listed
    }
}

/// The lines that name the paths in the delete dialog.
pub fn confirm_delete_lines(paths: &[String]) -> (r: Vec<String>)
    ensures
        r@.map_values(|s: String| s@) == delete_lines(paths@.map_values(|s: String| s@)),
{
    let ghost pv = paths@.map_values(|s: String| s@);
    let shown: usize = if paths.len() < LISTED_PATHS { paths.len() } else { LISTED_PATHS };
    let mut out: Vec<String> = Vec::new();
    let mut i: usize = 0;
    while i < shown
        invariant
            i <= shown,
            shown <= paths.len(),
            shown == (if paths.len() < LISTED_PATHS { paths.len() } else { LISTED_PATHS }),
            pv == paths@.map_values(|s: String| s@),
            out@.map_values(|s: String| s@) =~= Seq::new(i as nat, |k: int| "  "@ + pv[k]),
        decreases shown - i,
    {
        let mut line = text("  ");
        push_text(&mut line, paths[i].as_str());
        let ghost before = out@;
        out.push(line);
        assert(out@.map_values(|s: String| s@) =~= before.map_values(|s: String| s@).push(
            "  "@ + pv[i as int],
        ));
        i = i + 1;
    }
    if paths.len() > LISTED_PATHS {
        let mut more = text("  ... and ");
        push_decimal(&mut more, (paths.len() - LISTED_PATHS) as u128);
        push_text(&mut more, " more");
        let ghost before = out@;
        out.push(more);
        assert(out@.map_values(|s: String| s@) =~= before.map_values(|s: String| s@).push(
            "  ... and "@ + decimal((paths.len() - LISTED_PATHS) as nat) + " more"@,
        ));
    }
    out
}

/// The line for a device in the picker: `[ok]` when it is ready, else `[?]`.
pub open spec fn device_text(serial: Seq<char>, state: Seq<char>) -> Seq<char> {
    " "@ + (if state == "device"@ { "[ok]"@ } else { "[?]"@ }) + " "@ + serial + " ("@ + state + ")"@
}

/// The picker's line for a device.
pub fn device_line(d: &Device) -> (r: String)
    ensures
        r@ == device_text(d@.serial, d@.state),
{
    let mut out = text(" ");
    if str_eq(d.state.as_str(), "device") {
        push_text(&mut out, "[ok]");
    } else {
        push_text(&mut out, "[?]");
    }
    push_text(&mut out, " ");
    push_text(&mut out, d.serial.as_str());
    push_text(&mut out, " (");
    push_text(&mut out, d.state.as_str());
    push_text(&mut out, ")");
    out
}

/// The sign of a job's status in the queue dialog.
pub open spec fn status_icon(status: TransferStatus) -> Seq<char> {
    match status {
        TransferStatus::Pending => "..."@,
        TransferStatus::InProgress => ">>"@,
        TransferStatus::Completed => "[ok]"@,
        TransferStatus::Failed => "[!!]"@,
    }
}

/// The queue dialog's line for a job.
pub fn job_line(job: &TransferJob) -> (r: String)
    ensures
        r@ == " "@ + status_icon(job@.status) + " "@ + job@.source + " -> "@ + job@.destination,
{
    let mut out = text(" ");
    match job.status {
        TransferStatus::Pending => push_text(&mut out, "..."),
        TransferStatus::InProgress => push_text(&mut out, ">>"),
        TransferStatus::Completed => push_text(&mut out, "[ok]"),
        TransferStatus::Failed => push_text(&mut out, "[!!]"),
    }
    push_text(&mut out, " ");
    push_text(&mut out, job.source.as_str());
    push_text(&mut out, " -> ");
    push_text(&mut out, job.destination.as_str());
    out
}

/// The share of the screen left on each side of a centred dialog that takes
/// `percent` of it.
pub fn centered_margin(percent: u16) -> (r: u16)
    requires
        percent <= 100,
    ensures
        r == (100 - percent) / 2,
{
    (100 - percent) / 2
}

} // verus!
