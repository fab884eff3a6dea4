//! What each key does: in a dialog, in the panes, and while editing the
//! filter; and what the outcome of an operation that a key asked for does.
//! A step gives the next state and, where work on the disk or the device is
//! needed, the operation to run.
use vstd::prelude::*;

use crate::app::{
    entries_view, lemma_no_filter_shows_all, positions, App, AppView, InputMode, Modal, ModalView,
    Pane, PaneView, WaitView, Waiting,
};
use crate::event::{KeyCode, KeyEvent};
use crate::file_entry::{opt_view, sorted_entries, Device, DeviceView, EntryView, FileEntry, FileKind};
use crate::ops::{op_view, Op, OpView, Outcome, OutcomeView};
use crate::paths::{joined_path, path_join};
use crate::text::{copy_string, decimal, pop_char, push_char, push_decimal, push_text, text};
use crate::transfer::{
    lemma_added_wf, lemma_cancel_keeps, lemma_finished_keeps, lemma_first_with, lemma_kept_in_trans,
    lemma_pending_count_zero, lemma_set_status_keeps, lemma_set_status_pending_count,
    lemma_set_status_only, lemma_set_status_wf, pending_count, QueueView, TransferStatus,
};

verus! {

pub open spec fn renamed_text(name: Seq<char>) -> Seq<char> {
    "renamed to "@ + name
}

pub open spec fn created_text(name: Seq<char>) -> Seq<char> {
    "created folder "@ + name
}

pub open spec fn deleted_text(name: Seq<char>) -> Seq<char> {
    "deleted "@ + name
}

pub open spec fn delete_failed_text(name: Seq<char>, message: Seq<char>) -> Seq<char> {
    "failed to delete "@ + name + ": "@ + message
}

pub open spec fn queued_text(n: nat) -> Seq<char> {
    "queued "@ + decimal(n) + " transfer(s)"@
}

pub open spec fn transferring_text(source: Seq<char>, destination: Seq<char>) -> Seq<char> {
    "transferring "@ + source + " -> "@ + destination
}

pub open spec fn complete_text(source: Seq<char>) -> Seq<char> {
    "transfer complete: "@ + source
}

pub open spec fn transfer_failed_text(message: Seq<char>) -> Seq<char> {
    "transfer failed: "@ + message
}

/// A step that asks for nothing.
pub open spec fn idle(s: AppView) -> (AppView, Option<OpView>) {
    (s, None)
}

/// The entry a rename applies to: the one chosen entry, the selected one or
/// else the one under the cursor.
pub open spec fn rename_target(p: PaneView) -> Option<EntryView> {
    if p.chosen().len() == 1 {
        Some(p.chosen()[0])
    } else {
        None
    }
}

/// A confirmed rename to `new_name`: the entry is renamed within the active
/// pane's directory; without an entry nothing happens.
pub open spec fn rename_started(s: AppView, new_name: Seq<char>) -> (AppView, Option<OpView>) {
    let p = s.active();
    match rename_target(p) {
        Some(e) => (
            s.with_waiting(Some(WaitView::Renamed { name: new_name })),
            Some(
                OpView::Rename {
                    pane: s.active_pane,
                    from: joined_path(p.path, e.name),
                    to: joined_path(p.path, new_name),
                },
            ),
        ),
        None => idle(s),
    }
}

/// A confirmed new folder `name` in the active pane's directory.
pub open spec fn create_started(s: AppView, name: Seq<char>) -> (AppView, Option<OpView>) {
    (
        s.with_waiting(Some(WaitView::Created { name })),
        Some(OpView::Mkdir { pane: s.active_pane, path: joined_path(s.active().path, name) }),
    )
}

/// The text dialog showing an edited buffer.
pub open spec fn text_dialog(buffer: Seq<char>, is_rename: bool) -> ModalView {
    if is_rename {
        ModalView::Rename { buffer }
    } else {
        ModalView::CreateFolder { buffer }
    }
}

/// A key in the rename or new-folder dialog: `Enter` closes it and, with a
/// non-empty text, renames or creates; `Backspace` and characters edit the
/// text.
pub open spec fn text_input_step(s: AppView, code: KeyCode, buffer: Seq<char>, is_rename: bool) -> (
    AppView,
    Option<OpView>,
) {
    match code {
        KeyCode::Enter => {
            let closed = s.with_modal(None);
            if buffer.len() == 0 {
                idle(closed)
            } else if is_rename {
                rename_started(closed, buffer)
            } else {
                create_started(closed, buffer)
            }
        },
        KeyCode::Backspace => idle(
            s.with_modal(
                Some(text_dialog(if buffer.len() > 0 { buffer.drop_last() } else { buffer }, is_rename)),
            ),
        ),
        KeyCode::Char(c) => idle(s.with_modal(Some(text_dialog(buffer.push(c), is_rename)))),
        _ => idle(s),
    }
}

/// A key in the device picker: `Enter` takes the first device listed and
/// lists the active pane anew.
pub open spec fn picker_step(s: AppView, code: KeyCode, devices: Seq<DeviceView>) -> (AppView, Option<OpView>) {
    if code == KeyCode::Enter && devices.len() > 0 {
        AppView {
            serial: Some(devices[0].serial),
            modal: None,
            status: "device selected"@,
            ..s
        }.refreshed()
    } else {
        idle(s)
    }
}

/// The next deletion: the first of `targets` in the directory `base`,
/// recursive for a directory; when none is left, `pane` is listed anew.
pub open spec fn delete_next(s: AppView, pane: Pane, base: Seq<char>, targets: Seq<EntryView>) -> (
    AppView,
    Option<OpView>,
) {
    if targets.len() == 0 {
        s.listing_started(pane, false)
    } else {
        let e = targets[0];
        (
            s.with_waiting(
                Some(WaitView::Deleting { pane, base, name: e.name, rest: targets.drop_first() }),
            ),
            Some(OpView::Delete { pane, path: joined_path(base, e.name), recursive: e.is_directory() }),
        )
    }
}

/// A confirmed delete: the chosen entries of the active pane are deleted one
/// after the other.
pub open spec fn delete_started(s: AppView) -> (AppView, Option<OpView>) {
    delete_next(s, s.active_pane, s.active().path, s.active().chosen())
}

/// A key in the delete confirmation: `y` deletes, `n` and `Esc` cancel.
pub open spec fn confirm_step(s: AppView, code: KeyCode) -> (AppView, Option<OpView>) {
    match code {
        KeyCode::Char(c) => if c == 'y' || c == 'Y' {
            delete_started(s.with_modal(None))
        } else if c == 'n' || c == 'N' {
            idle(s.with_modal(None))
        } else {
            idle(s)
        },
        KeyCode::Esc => idle(s.with_modal(None)),
        _ => idle(s),
    }
}

/// The dialog takes typed text, so that `q` is a character in it.
pub open spec fn takes_text(m: ModalView) -> bool {
    m is Rename || m is CreateFolder
}

/// A key while a dialog is open: `Esc` closes any dialog, and `q` one that
/// takes no text; other keys go to the dialog.
pub open spec fn modal_step(s: AppView, code: KeyCode, m: ModalView) -> (AppView, Option<OpView>) {
    if code == KeyCode::Esc || (code == KeyCode::Char('q') && !takes_text(m)) {
        idle(s.with_modal(None))
    } else {
        match m {
            ModalView::DevicePicker { devices } => picker_step(s, code, devices),
            ModalView::ConfirmDelete { .. } => confirm_step(s, code),
            ModalView::Rename { buffer } => text_input_step(s, code, buffer, true),
            ModalView::CreateFolder { buffer } => text_input_step(s, code, buffer, false),
            _ => idle(s),
        }
    }
}

/// Asks to confirm deleting the chosen entries, or says nothing is selected.
pub open spec fn delete_prompted(s: AppView) -> AppView {
    let paths = s.active().chosen().map_values(|e: EntryView| e.name);
    if paths.len() == 0 {
        s.with_status("nothing selected"@)
    } else {
        s.with_modal(Some(ModalView::ConfirmDelete { paths }))
    }
}

/// Opens the rename dialog on the entry to rename, unless more than one
/// entry is selected.
pub open spec fn rename_prompted(s: AppView) -> AppView {
    if s.active().selected.len() > 1 {
        s.with_status("select only one item to rename"@)
    } else {
        match rename_target(s.active()) {
            Some(e) => s.with_modal(Some(ModalView::Rename { buffer: e.name })),
            None => s,
        }
    }
}

/// The queue after a job is added for each entry, in order, from
/// `src_path` to `dst_path`.
pub open spec fn queued_all(
    q: QueueView,
    src_path: Seq<char>,
    dst_path: Seq<char>,
    entries: Seq<EntryView>,
    to_android: bool,
) -> QueueView
    decreases entries.len(),
{
    if entries.len() == 0 {
        q
    } else {
        let e = entries.last();
        queued_all(q, src_path, dst_path, entries.drop_last(), to_android).added(
            joined_path(src_path, e.name),
            joined_path(dst_path, e.name),
            to_android,
            e.is_directory(),
        )
    }
}

proof fn lemma_queued_all(
    q: QueueView,
    src_path: Seq<char>,
    dst_path: Seq<char>,
    entries: Seq<EntryView>,
    to_android: bool,
)
    requires
        q.wf(),
        q.next_id + entries.len() <= usize::MAX,
    ensures
        queued_all(q, src_path, dst_path, entries, to_android).wf(),
        queued_all(q, src_path, dst_path, entries, to_android).next_id == q.next_id + entries.len(),
    decreases entries.len(),
{
    if entries.len() > 0 {
        let e = entries.last();
        lemma_queued_all(q, src_path, dst_path, entries.drop_last(), to_android);
        lemma_added_wf(
            queued_all(q, src_path, dst_path, entries.drop_last(), to_android),
            joined_path(src_path, e.name),
            joined_path(dst_path, e.name),
            to_android,
            e.is_directory(),
        );
    }
}

/// The transfer of a job: a push from the local disk to the device, a pull
/// from the device to the local disk.
pub open spec fn transfer_op(job: crate::transfer::JobView) -> OpView {
    if job.to_android {
        OpView::Push { local: job.source, remote: job.destination }
    } else {
        OpView::Pull { remote: job.source, local: job.destination }
    }
}

/// The first pending job is started: marked in progress, named in the
/// status line, and its push or pull asked for.
pub open spec fn transfer_started(s: AppView) -> (AppView, Option<OpView>) {
    match s.queue.first_with(TransferStatus::Pending) {
        Some(i) => {
            let job = s.queue.jobs[i];
            (
                AppView {
                    queue: s.queue.set_status(job.id, TransferStatus::InProgress, None),
                    status: transferring_text(job.source, job.destination),
                    waiting: Some(WaitView::Transfer { id: job.id, source: job.source }),
                    ..s
                },
                Some(transfer_op(job)),
            )
        },
        None => idle(s),
    }
}

/// The chosen entries of the active pane are queued for copying to the
/// other pane's directory, and the first pending job is started.
pub open spec fn copy_started(s: AppView) -> (AppView, Option<OpView>) {
    let src = s.active();
    let entries = src.chosen();
    if entries.len() == 0 {
        idle(s.with_status("nothing to copy"@))
    } else {
        transfer_started(
            AppView {
                queue: queued_all(
                    s.queue,
                    src.path,
                    s.inactive().path,
                    entries,
                    s.active_pane == Pane::Local,
                ),
                status: queued_text(entries.len()),
                ..s
            },
        )
    }
}

/// The active pane's filter set to the buffer, or cleared when it is empty.
pub open spec fn filter_of(buffer: Seq<char>) -> Option<Seq<char>> {
    if buffer.len() == 0 {
        None
    } else {
        Some(buffer)
    }
}

/// The state with the active pane's filter replaced.
pub open spec fn with_filter(s: AppView, filter: Option<Seq<char>>) -> AppView {
    s.with_active(PaneView { filter, ..s.active() })
}

/// A key while editing the filter: `Esc` drops the filter, `Enter` keeps
/// it, `Backspace` and characters edit it.
pub open spec fn filter_step(s: AppView, code: KeyCode) -> AppView {
    match code {
        KeyCode::Esc => with_filter(AppView { input_mode: InputMode::Normal, ..s }, None),
        KeyCode::Enter => AppView { input_mode: InputMode::Normal, ..s },
        KeyCode::Backspace => {
            let b = if s.filter_buffer.len() > 0 {
                s.filter_buffer.drop_last()
            } else {
                s.filter_buffer
            };
            with_filter(AppView { filter_buffer: b, ..s }, filter_of(b))
        },
        KeyCode::Char(c) => {
            let b = s.filter_buffer.push(c);
            with_filter(AppView { filter_buffer: b, ..s }, Some(b))
        },
        _ => s,
    }
}

/// A character key in the panes.
pub open spec fn char_step(s: AppView, c: char) -> (AppView, Option<OpView>) {
    if c == 'q' {
        idle(AppView { should_quit: true, ..s })
    } else if c == 'k' {
        idle(s.with_active(s.active().moved_up()))
    } else if c == 'j' {
        idle(s.with_active(s.active().moved_down()))
    } else if c == 'l' {
        s.entered()
    } else if c == 'h' {
        s.at_parent()
    } else if c == ' ' {
        idle(s.with_active(s.active().toggled(s.active().cursor)))
    } else if c == 'a' {
        idle(s.with_active(s.active().all_selected()))
    } else if c == 'R' {
        s.refreshed()
    } else if c == 'd' {
        idle(delete_prompted(s))
    } else if c == 'r' {
        idle(rename_prompted(s))
    } else if c == 'n' {
        idle(s.with_modal(Some(ModalView::CreateFolder { buffer: Seq::empty() })))
    } else if c == 'c' {
        copy_started(s)
    } else if c == '/' {
        idle(AppView { input_mode: InputMode::Filter, filter_buffer: Seq::empty(), ..s })
    } else if c == 't' {
        if s.queue.jobs.len() > 0 {
            idle(s.with_modal(Some(ModalView::TransferProgress)))
        } else {
            idle(s)
        }
    } else if c == 'x' {
        if s.queue.has_active() {
            idle(AppView { queue: s.queue.cancel_all(), status: "transfer cancelled"@, ..s })
        } else {
            idle(s)
        }
    } else if c == '?' {
        idle(s.with_modal(Some(ModalView::Help)))
    } else {
        idle(s)
    }
}

/// A key in the panes, with no dialog open and no filter being edited.
pub open spec fn normal_step(s: AppView, code: KeyCode) -> (AppView, Option<OpView>) {
    match code {
        KeyCode::Char(c) => char_step(s, c),
        KeyCode::Tab => idle(s.switched()),
        KeyCode::Up => idle(s.with_active(s.active().moved_up())),
        KeyCode::Down => idle(s.with_active(s.active().moved_down())),
        KeyCode::PageUp => idle(s.with_active(s.active().paged_up())),
        KeyCode::PageDown => idle(s.with_active(s.active().paged_down())),
        KeyCode::Enter => s.entered(),
        KeyCode::Backspace => s.at_parent(),
        KeyCode::Esc => idle(s.with_active(s.active().unselected())),
        KeyCode::Other => idle(s),
    }
}

/// The step for a key: an open dialog takes it first, then the filter
/// editor or the panes.
pub open spec fn handled(s: AppView, code: KeyCode) -> (AppView, Option<OpView>) {
    match s.modal {
        Some(m) => modal_step(s, code, m),
        None => match s.input_mode {
            InputMode::Normal => normal_step(s, code),
            InputMode::Filter => idle(filter_step(s, code)),
        },
    }
}

/// The queue has room for the ids of the jobs a copy would add.
pub open spec fn copy_fits(s: AppView) -> bool {
    s.queue.next_id + s.active().chosen().len() <= usize::MAX
}

/// A copy is what this key would start.
pub open spec fn starts_copy(s: AppView, code: KeyCode) -> bool {
    s.modal is None && s.input_mode == InputMode::Normal && code == KeyCode::Char('c')
}

/// A transfer finished: the job, if still in progress, is marked completed
/// or failed with the reason. After a success the active pane is listed
/// anew and the next pending job starts when the listing has come; after a
/// failure the next pending job starts at once.
pub open spec fn transfer_finished(s: AppView, id: usize, source: Seq<char>, result: Result<(), Seq<char>>) -> (
    AppView,
    Option<OpView>,
) {
    match result {
        Ok(()) => {
            let t = AppView {
                queue: s.queue.finished(id, TransferStatus::Completed, None),
                status: complete_text(source),
                ..s
            };
            t.listing_then(t.active_pane, false, true)
        },
        Err(m) => transfer_started(
            AppView {
                queue: s.queue.finished(id, TransferStatus::Failed, Some(m)),
                status: transfer_failed_text(m),
                ..s
            },
        ),
    }
}

/// A listing came: it is shown, and when transfers go on after it, the next
/// pending job starts.
pub open spec fn after_listing(
    s: AppView,
    pane: Pane,
    startup: bool,
    transfers: bool,
    r: Result<Seq<EntryView>, Seq<char>>,
) -> (AppView, Option<OpView>) {
    let (u, op) = s.listed(pane, startup, r);
    if transfers && op is None {
        transfer_started(u)
    } else {
        (u, op)
    }
}

/// The step for the outcome of the operation asked for last: what it was
/// for decides what comes next. An outcome that nothing waits for changes
/// nothing.
pub open spec fn resumed(s: AppView, o: OutcomeView) -> (AppView, Option<OpView>) {
    let t = s.with_waiting(None);
    match s.waiting {
        Some(WaitView::Devices) => match o {
            OutcomeView::Found(found) => t.devices_found(found).startup_listing(),
            _ => idle(s),
        },
        Some(WaitView::Listing { pane, startup, transfers }) => match o {
            OutcomeView::Listed(r) => after_listing(t, pane, startup, transfers, r),
            OutcomeView::Unsupported => if pane == Pane::Android {
                (
                    t.with_waiting(Some(WaitView::PlainListing { startup, transfers })),
                    Some(OpView::ListPlain { path: t.android.path }),
                )
            } else {
                idle(s)
            },
            _ => idle(s),
        },
        Some(WaitView::PlainListing { startup, transfers }) => match o {
            OutcomeView::Listed(r) => after_listing(t, Pane::Android, startup, transfers, r),
            _ => idle(s),
        },
        Some(WaitView::Renamed { name }) => match o {
            OutcomeView::Done(Ok(())) => t.with_status(renamed_text(name)).refreshed(),
            OutcomeView::Done(Err(m)) => idle(t.with_modal(Some(ModalView::Error { message: m }))),
            _ => idle(s),
        },
        Some(WaitView::Created { name }) => match o {
            OutcomeView::Done(Ok(())) => t.with_status(created_text(name)).refreshed(),
            OutcomeView::Done(Err(m)) => idle(t.with_modal(Some(ModalView::Error { message: m }))),
            _ => idle(s),
        },
        Some(WaitView::Deleting { pane, base, name, rest }) => match o {
            OutcomeView::Done(Ok(())) => delete_next(t.with_status(deleted_text(name)), pane, base, rest),
            OutcomeView::Done(Err(m)) => idle(
                t.with_modal(Some(ModalView::Error { message: delete_failed_text(name, m) })),
            ),
            _ => idle(s),
        },
        Some(WaitView::Transfer { id, source }) => match o {
            OutcomeView::Done(r) => transfer_finished(t, id, source, r),
            _ => idle(s),
        },
        None => idle(s),
    }
}

/// Every job a copy queues goes in the same direction: to the device when
/// the local pane is active, from it otherwise; the earlier jobs stay.
pub proof fn lemma_queued_direction(
    q: QueueView,
    src_path: Seq<char>,
    dst_path: Seq<char>,
    entries: Seq<EntryView>,
    to_android: bool,
)
    ensures
        queued_all(q, src_path, dst_path, entries, to_android).jobs.len() == q.jobs.len() + entries.len(),
        queued_all(q, src_path, dst_path, entries, to_android).jobs.take(q.jobs.len() as int) == q.jobs,
        forall|k: int|
            q.jobs.len() <= k < q.jobs.len() + entries.len() ==> {
                let job = #[trigger] queued_all(q, src_path, dst_path, entries, to_android).jobs[k];
                &&& job.to_android == to_android
                &&& job.status == TransferStatus::Pending
                &&& job.source == joined_path(src_path, entries[k - q.jobs.len()].name)
                &&& job.destination == joined_path(dst_path, entries[k - q.jobs.len()].name)
            },
    decreases entries.len(),
{
    if entries.len() > 0 {
        let rest = entries.drop_last();
        lemma_queued_direction(q, src_path, dst_path, rest, to_android);
        let before = queued_all(q, src_path, dst_path, rest, to_android);
        let after = queued_all(q, src_path, dst_path, entries, to_android);
        assert(after.jobs.take(q.jobs.len() as int) =~= before.jobs.take(q.jobs.len() as int));
        assert forall|k: int|
            q.jobs.len() <= k < q.jobs.len() + entries.len() implies {
                let job = #[trigger] after.jobs[k];
                &&& job.to_android == to_android
                &&& job.status == TransferStatus::Pending
                &&& job.source == joined_path(src_path, entries[k - q.jobs.len()].name)
                &&& job.destination == joined_path(dst_path, entries[k - q.jobs.len()].name)
            } by {
            if k < q.jobs.len() + rest.len() {
                assert(after.jobs[k] == before.jobs[k]);
                assert(rest[k - q.jobs.len()] == entries[k - q.jobs.len()]);
            }
        }
    }
}

/// Starting the next transfer keeps the queue and its ids.
proof fn lemma_transfer_started_keeps(s: AppView)
    requires
        s.queue.wf(),
    ensures
        s.queue.kept_in(transfer_started(s).0.queue),
        transfer_started(s).0.queue.wf(),
{
    lemma_kept_in_trans(s.queue, s.queue, s.queue);
    lemma_first_with(s.queue, TransferStatus::Pending);
    if let Some(i) = s.queue.first_with(TransferStatus::Pending) {
        let id = s.queue.jobs[i].id;
        lemma_set_status_keeps(s.queue, i, TransferStatus::InProgress, None);
        lemma_set_status_wf(s.queue, id, TransferStatus::InProgress, None);
    }
}

/// Whatever key is pressed, no job leaves the queue or changes its id, its
/// paths or its direction, and a finished job stays as it is.
pub proof fn lemma_keys_keep_jobs(s: AppView, code: KeyCode)
    requires
        s.wf(),
        starts_copy(s, code) ==> copy_fits(s),
    ensures
        s.queue.kept_in(handled(s, code).0.queue),
{
    lemma_kept_in_trans(s.queue, s.queue, s.queue);
    if starts_copy(s, code) {
        let src = s.active();
        let entries = src.chosen();
        if entries.len() > 0 {
            let to_android = s.active_pane == Pane::Local;
            let q = queued_all(s.queue, src.path, s.inactive().path, entries, to_android);
            lemma_queued_all(s.queue, src.path, s.inactive().path, entries, to_android);
            lemma_queued_direction(s.queue, src.path, s.inactive().path, entries, to_android);
            assert forall|k: int| 0 <= k < s.queue.jobs.len() implies #[trigger] s.queue.jobs[k].kept_as(
                q.jobs[k],
            ) by {
                assert(q.jobs.take(s.queue.jobs.len() as int)[k] == q.jobs[k]);
            }
            let t = AppView { queue: q, status: queued_text(entries.len()), ..s };
            lemma_transfer_started_keeps(t);
            lemma_kept_in_trans(s.queue, q, transfer_started(t).0.queue);
        }
    } else if s.modal is None && s.input_mode == InputMode::Normal && code == KeyCode::Char('x') {
        lemma_cancel_keeps(s.queue);
    }
}

/// Whatever key is pressed, the cursor of each pane stays on an entry, or
/// at the top of an empty pane.
pub proof fn lemma_keys_keep_cursors_on_entries(s: AppView, code: KeyCode)
    requires
        s.cursors_on_entries(),
    ensures
        handled(s, code).0.cursors_on_entries(),
{
}

/// Whatever comes of an operation, the cursor of each pane stays on an
/// entry, or at the top of an empty pane.
proof fn lemma_listing_then_cursors(s: AppView, pane: Pane, startup: bool, transfers: bool)
    requires
        s.cursors_on_entries(),
    ensures
        s.listing_then(pane, startup, transfers).0.cursors_on_entries(),
{
}

proof fn lemma_transfer_started_panes(s: AppView)
    ensures
        transfer_started(s).0.local == s.local,
        transfer_started(s).0.android == s.android,
{
}

proof fn lemma_listed_cursors(s: AppView, pane: Pane, startup: bool, r: Result<Seq<EntryView>, Seq<char>>)
    requires
        s.cursors_on_entries(),
    ensures
        s.listed(pane, startup, r).0.cursors_on_entries(),
{
    match r {
        Ok(entries) => {
            let t = s.with_pane(pane, s.pane_view(pane).with_entries(sorted_entries(entries)));
            assert(t.cursors_on_entries());
            lemma_listing_then_cursors(t, Pane::Android, true, false);
        },
        Err(_) => {},
    }
}

proof fn lemma_after_listing_cursors(
    s: AppView,
    pane: Pane,
    startup: bool,
    transfers: bool,
    r: Result<Seq<EntryView>, Seq<char>>,
)
    requires
        s.cursors_on_entries(),
    ensures
        after_listing(s, pane, startup, transfers, r).0.cursors_on_entries(),
{
    lemma_listed_cursors(s, pane, startup, r);
    lemma_transfer_started_panes(s.listed(pane, startup, r).0);
}

proof fn lemma_delete_next_cursors(s: AppView, pane: Pane, base: Seq<char>, targets: Seq<EntryView>)
    requires
        s.cursors_on_entries(),
    ensures
        delete_next(s, pane, base, targets).0.cursors_on_entries(),
{
    lemma_listing_then_cursors(s, pane, false, false);
}

/// Whatever comes of an operation, the cursor of each pane stays on an
/// entry, or at the top of an empty pane.
pub proof fn lemma_outcomes_keep_cursors_on_entries(s: AppView, o: OutcomeView)
    requires
        s.cursors_on_entries(),
    ensures
        resumed(s, o).0.cursors_on_entries(),
{
    let t = s.with_waiting(None);
    match s.waiting {
        Some(WaitView::Devices) => {
            if let OutcomeView::Found(found) = o {
                let u = t.devices_found(found);
                assert(u.cursors_on_entries());
                lemma_listing_then_cursors(u, Pane::Local, u.serial is Some, false);
            }
        },
        Some(WaitView::Listing { pane, startup, transfers }) => {
            if let OutcomeView::Listed(r) = o {
                lemma_after_listing_cursors(t, pane, startup, transfers, r);
            }
        },
        Some(WaitView::PlainListing { startup, transfers }) => {
            if let OutcomeView::Listed(r) = o {
                lemma_after_listing_cursors(t, Pane::Android, startup, transfers, r);
            }
        },
        Some(WaitView::Renamed { name }) => {
            lemma_listing_then_cursors(t.with_status(renamed_text(name)), t.active_pane, false, false);
        },
        Some(WaitView::Created { name }) => {
            lemma_listing_then_cursors(t.with_status(created_text(name)), t.active_pane, false, false);
        },
        Some(WaitView::Deleting { pane, base, name, rest }) => {
            lemma_delete_next_cursors(t.with_status(deleted_text(name)), pane, base, rest);
        },
        Some(WaitView::Transfer { id, source }) => {
            if let OutcomeView::Done(r) = o {
                match r {
                    Ok(()) => {
                        let u = AppView {
                            queue: t.queue.finished(id, TransferStatus::Completed, None),
                            status: complete_text(source),
                            ..t
                        };
                        lemma_listing_then_cursors(u, u.active_pane, false, true);
                    },
                    Err(m) => {
                        let u = AppView {
                            queue: t.queue.finished(id, TransferStatus::Failed, Some(m)),
                            status: transfer_failed_text(m),
                            ..t
                        };
                        lemma_transfer_started_panes(u);
                    },
                }
            }
        },
        None => {},
    }
}

/// A run of transfers is under way: ids are unique, and either a transfer
/// is out whose job is the only one in progress, or a listing is out after
/// which the next transfer starts, with no job in progress.
pub open spec fn transfers_running(s: AppView) -> bool {
    &&& s.queue.wf()
    &&& match s.waiting {
        Some(WaitView::Transfer { id, .. }) => forall|k: int|
            0 <= k < s.queue.jobs.len() && #[trigger] s.queue.jobs[k].status == TransferStatus::InProgress
                ==> s.queue.jobs[k].id == id,
        Some(WaitView::Listing { startup, transfers, .. }) => transfers && !startup && !s.queue.has_active(),
        Some(WaitView::PlainListing { startup, transfers }) => transfers && !startup
            && !s.queue.has_active(),
        _ => false,
    }
}

/// The steps left in a run of transfers: three for each pending job, and
/// what remains of the step under way.
pub open spec fn transfer_work(s: AppView) -> nat {
    3 * pending_count(s.queue.jobs) + match s.waiting {
        Some(WaitView::Transfer { .. }) => 3nat,
        Some(WaitView::Listing { .. }) => 2nat,
        Some(WaitView::PlainListing { .. }) => 1nat,
        _ => 0nat,
    }
}

/// The outcome is one that the operation out can give.
pub open spec fn answers(s: AppView, o: OutcomeView) -> bool {
    match s.waiting {
        Some(WaitView::Devices) => o is Found,
        Some(WaitView::Listing { pane, .. }) => o is Listed || (pane == Pane::Android && o is Unsupported),
        Some(WaitView::PlainListing { .. }) => o is Listed,
        Some(_) => o is Done,
        None => true,
    }
}

/// Every job has finished, completed or failed.
pub open spec fn all_finished(q: QueueView) -> bool {
    forall|k: int| 0 <= k < q.jobs.len() ==> #[trigger] q.jobs[k].finished()
}

/// The state after the outcomes, one after the other.
pub open spec fn after_outcomes(s: AppView, os: Seq<OutcomeView>) -> AppView
    decreases os.len(),
{
    if os.len() == 0 {
        s
    } else {
        after_outcomes(resumed(s, os[0]).0, os.drop_first())
    }
}

/// Each outcome answers the operation out when it comes.
pub open spec fn all_answered(s: AppView, os: Seq<OutcomeView>) -> bool
    decreases os.len(),
{
    os.len() == 0 || (answers(s, os[0]) && all_answered(resumed(s, os[0]).0, os.drop_first()))
}

proof fn lemma_no_active(q: QueueView)
    ensures
        !q.has_active() <==> forall|k: int|
            0 <= k < q.jobs.len() ==> #[trigger] q.jobs[k].status != TransferStatus::InProgress,
{
}

proof fn lemma_all_finished(q: QueueView)
    requires
        pending_count(q.jobs) == 0,
        !q.has_active(),
    ensures
        all_finished(q),
{
    lemma_pending_count_zero(q.jobs);
    assert forall|k: int| 0 <= k < q.jobs.len() implies #[trigger] q.jobs[k].finished() by {
        assert(q.jobs[k].status != TransferStatus::Pending);
        assert(q.jobs[k].status != TransferStatus::InProgress);
    }
}

/// Starting the next transfer with none in progress: the first pending job
/// becomes the only one in progress and one job fewer is pending; with none
/// pending, every job has finished.
proof fn lemma_transfer_started_runs(s: AppView)
    requires
        s.queue.wf(),
        !s.queue.has_active(),
    ensures
        ({
            let u = transfer_started(s).0;
            if pending_count(s.queue.jobs) > 0 {
                &&& transfers_running(u)
                &&& u.waiting is Some && u.waiting->0 is Transfer
                &&& pending_count(u.queue.jobs) + 1 == pending_count(s.queue.jobs)
            } else {
                u == s && all_finished(s.queue)
            }
        }),
{
    lemma_first_with(s.queue, TransferStatus::Pending);
    lemma_no_active(s.queue);
    match s.queue.first_with(TransferStatus::Pending) {
        Some(i) => {
            let id = s.queue.jobs[i].id;
            lemma_set_status_pending_count(s.queue, i, TransferStatus::InProgress, None);
            lemma_set_status_wf(s.queue, id, TransferStatus::InProgress, None);
            lemma_set_status_only(s.queue, i, TransferStatus::InProgress, None);
            let q = s.queue.set_status(id, TransferStatus::InProgress, None);
            assert forall|k: int|
                0 <= k < q.jobs.len() && #[trigger] q.jobs[k].status == TransferStatus::InProgress implies q.jobs[k].id
                == id by {
                if k != i {
                    assert(q.jobs[k] == s.queue.jobs[k]);
                }
            }
            assert(pending_count(s.queue.jobs) > 0);
        },
        None => {
            lemma_pending_count_zero(s.queue.jobs);
            lemma_all_finished(s.queue);
        },
    }
}

/// Each answered outcome in a run of transfers either leaves the run under
/// way with fewer steps left, or ends it with every job finished and
/// nothing out.
#[verifier::rlimit(100)]
#[verifier::spinoff_prover]
pub proof fn lemma_transfer_step(s: AppView, o: OutcomeView)
    requires
        transfers_running(s),
        answers(s, o),
    ensures
        ({
            let u = resumed(s, o).0;
            ||| transfers_running(u) && transfer_work(u) < transfer_work(s)
            ||| u.waiting is None && all_finished(u.queue)
        }),
{
    let t = s.with_waiting(None);
    lemma_no_active(s.queue);
    match s.waiting {
        Some(WaitView::Transfer { id, source }) => {
            let (status, error) = match o {
                OutcomeView::Done(Ok(())) => (TransferStatus::Completed, None),
                OutcomeView::Done(Err(m)) => (TransferStatus::Failed, Some(m)),
                _ => (TransferStatus::Completed, None),
            };
            lemma_finished_keeps(s.queue, id, status, error);
            let q = s.queue.finished(id, status, error);
            lemma_no_active(q);
            match o {
                OutcomeView::Done(Ok(())) => {},
                OutcomeView::Done(Err(m)) => {
                    let v = AppView { queue: q, status: transfer_failed_text(m), ..t };
                    lemma_transfer_started_runs(v);
                },
                _ => {},
            }
        },
        Some(WaitView::Listing { pane, startup, transfers }) => {
            match o {
                OutcomeView::Listed(r) => {
                    let u = t.listed(pane, startup, r).0;
                    lemma_transfer_started_runs(u);
                },
                _ => {},
            }
        },
        Some(WaitView::PlainListing { startup, transfers }) => {
            match o {
                OutcomeView::Listed(r) => {
                    let u = t.listed(Pane::Android, startup, r).0;
                    lemma_transfer_started_runs(u);
                },
                _ => {},
            }
        },
        _ => {},
    }
}

proof fn lemma_idle_stays(s: AppView, os: Seq<OutcomeView>)
    requires
        s.waiting is None,
    ensures
        after_outcomes(s, os) == s,
    decreases os.len(),
{
    if os.len() > 0 {
        lemma_idle_stays(s, os.drop_first());
    }
}

/// Transfers run to the end: from a run under way, once as many answered
/// outcomes have come as there are steps left, every job has finished,
/// completed or failed.
pub proof fn lemma_transfers_run_to_the_end(s: AppView, os: Seq<OutcomeView>)
    requires
        transfers_running(s),
        all_answered(s, os),
        os.len() >= transfer_work(s),
    ensures
        all_finished(after_outcomes(s, os).queue),
    decreases os.len(),
{
    lemma_transfer_step(s, os[0]);
    let u = resumed(s, os[0]).0;
    if transfers_running(u) && transfer_work(u) < transfer_work(s) {
        lemma_transfers_run_to_the_end(u, os.drop_first());
    } else {
        lemma_idle_stays(u, os.drop_first());
    }
}

proof fn lemma_queued_pending(
    q: QueueView,
    src_path: Seq<char>,
    dst_path: Seq<char>,
    entries: Seq<EntryView>,
    to_android: bool,
)
    ensures
        pending_count(queued_all(q, src_path, dst_path, entries, to_android).jobs) == pending_count(q.jobs)
            + entries.len(),
    decreases entries.len(),
{
    if entries.len() > 0 {
        lemma_queued_pending(q, src_path, dst_path, entries.drop_last(), to_android);
        let before = queued_all(q, src_path, dst_path, entries.drop_last(), to_android);
        let e = entries.last();
        let after = before.added(joined_path(src_path, e.name), joined_path(dst_path, e.name), to_android, e.is_directory());
        assert(after.jobs.drop_last() =~= before.jobs);
    }
}

/// A copy runs every job: when no transfer was in progress, the jobs it
/// queues and those pending before are all transferred, completed or
/// failed, once as many answered outcomes have come as three for each of
/// them.
pub proof fn lemma_copy_runs_every_job(s: AppView, os: Seq<OutcomeView>)
    requires
        s.wf(),
        copy_fits(s),
        !s.queue.has_active(),
        s.active().chosen().len() > 0,
        all_answered(copy_started(s).0, os),
        os.len() >= 3 * (pending_count(s.queue.jobs) + s.active().chosen().len()),
    ensures
        all_finished(after_outcomes(copy_started(s).0, os).queue),
{
    let src = s.active();
    let entries = src.chosen();
    let to_android = s.active_pane == Pane::Local;
    let q = queued_all(s.queue, src.path, s.inactive().path, entries, to_android);
    lemma_queued_all(s.queue, src.path, s.inactive().path, entries, to_android);
    lemma_queued_direction(s.queue, src.path, s.inactive().path, entries, to_android);
    lemma_queued_pending(s.queue, src.path, s.inactive().path, entries, to_android);
    lemma_no_active(s.queue);
    assert forall|k: int| 0 <= k < q.jobs.len() implies #[trigger] q.jobs[k].status
        != TransferStatus::InProgress by {
        if k < s.queue.jobs.len() {
            assert(q.jobs.take(s.queue.jobs.len() as int)[k] == q.jobs[k]);
        }
    }
    lemma_no_active(q);
    let t = AppView { queue: q, status: queued_text(entries.len()), ..s };
    lemma_transfer_started_runs(t);
    lemma_transfers_run_to_the_end(copy_started(s).0, os);
}

/// Whatever comes of an operation, no job leaves the queue or changes its
/// id, paths or direction, and a finished or cancelled job stays as it is.
pub proof fn lemma_outcomes_keep_jobs(s: AppView, o: OutcomeView)
    requires
        s.queue.wf(),
    ensures
        s.queue.kept_in(resumed(s, o).0.queue),
{
    lemma_kept_in_trans(s.queue, s.queue, s.queue);
    let t = s.with_waiting(None);
    match s.waiting {
        Some(WaitView::Transfer { id, source }) => {
            match o {
                OutcomeView::Done(r) => {
                    let (status, error) = match r {
                        Ok(()) => (TransferStatus::Completed, None),
                        Err(m) => (TransferStatus::Failed, Some(m)),
                    };
                    lemma_finished_keeps(s.queue, id, status, error);
                    let q = s.queue.finished(id, status, error);
                    let v = AppView { queue: q, ..t };
                    lemma_transfer_started_keeps(v);
                    lemma_kept_in_trans(s.queue, q, transfer_started(v).0.queue);
                    lemma_kept_in_trans(s.queue, q, q);
                },
                _ => {},
            }
        },
        Some(WaitView::Listing { pane, startup, transfers }) => {
            match o {
                OutcomeView::Listed(r) => {
                    lemma_transfer_started_keeps(t.listed(pane, startup, r).0);
                },
                _ => {},
            }
        },
        Some(WaitView::PlainListing { startup, transfers }) => {
            match o {
                OutcomeView::Listed(r) => {
                    lemma_transfer_started_keeps(t.listed(Pane::Android, startup, r).0);
                },
                _ => {},
            }
        },
        _ => {},
    }
}

/// In the rename and new-folder dialogs, a typed character is added to the
/// name and `Backspace` takes it back.
pub proof fn lemma_dialog_typing(s: AppView, buffer: Seq<char>, c: char, is_rename: bool)
    requires
        s.modal == Some(text_dialog(buffer, is_rename)),
    ensures
        handled(s, KeyCode::Char(c)) == idle(s.with_modal(Some(text_dialog(buffer.push(c), is_rename)))),
        handled(handled(s, KeyCode::Char(c)).0, KeyCode::Backspace) == idle(
            s.with_modal(Some(text_dialog(buffer, is_rename))),
        ),
{
    assert(buffer.push(c).drop_last() =~= buffer);
    assert(s.with_modal(Some(text_dialog(buffer.push(c), is_rename))).with_modal(
        Some(text_dialog(buffer, is_rename)),
    ) =~= s.with_modal(Some(text_dialog(buffer, is_rename))));
}

/// The directory the active pane shows.
pub open spec fn active_directory(s: AppView) -> Seq<char> {
    match s.active_pane {
        Pane::Local => s.local.path,
        Pane::Android => s.android.path,
    }
}

/// A confirmed new-folder name asks for that folder inside the directory
/// the active pane shows, on that pane's side, and closes the dialog.
pub proof fn lemma_new_folder_in_pane_directory(s: AppView, name: Seq<char>)
    requires
        s.modal == Some(ModalView::CreateFolder { buffer: name }),
        name.len() > 0,
    ensures
        handled(s, KeyCode::Enter).1 == Some(
            OpView::Mkdir { pane: s.active_pane, path: joined_path(active_directory(s), name) },
        ),
        handled(s, KeyCode::Enter).0.modal is None,
{
}

proof fn lemma_single_position(n: nat, i: usize, pred: spec_fn(usize) -> bool)
    requires
        n <= usize::MAX,
        forall|k: usize| #[trigger] pred(k) <==> k == i,
    ensures
        positions(n).filter(pred) == if i < n {
            seq![i]
        } else {
            Seq::<usize>::empty()
        },
    decreases n,
{
    reveal(Seq::filter);
    if n > 0 {
        let m = (n - 1) as nat;
        lemma_single_position(m, i, pred);
        assert(positions(n).drop_last() =~= positions(m));
        assert(positions(n).last() == m as usize);
        if i < m {
            assert(!pred(m as usize));
        }
    } else {
        assert(positions(0) =~= Seq::<usize>::empty());
    }
}

/// A confirmed rename with nothing selected renames the entry under the
/// cursor, within the directory the active pane shows, on that pane's side.
pub proof fn lemma_rename_under_cursor(s: AppView, name: Seq<char>)
    requires
        s.modal == Some(ModalView::Rename { buffer: name }),
        name.len() > 0,
        s.active().selected == Set::<usize>::empty(),
        s.active().cursor < s.active().entries.len(),
    ensures
        handled(s, KeyCode::Enter).1 == Some(
            OpView::Rename {
                pane: s.active_pane,
                from: joined_path(active_directory(s), s.active().entries[s.active().cursor as int].name),
                to: joined_path(active_directory(s), name),
            },
        ),
{
    assert(s.active().selected.is_empty());
}

/// A confirmed rename with one entry selected renames that entry, within
/// the directory the active pane shows, on that pane's side.
pub proof fn lemma_rename_selected(s: AppView, name: Seq<char>, i: usize)
    requires
        s.modal == Some(ModalView::Rename { buffer: name }),
        name.len() > 0,
        s.active().selected == set![i],
        i < s.active().entries.len() <= usize::MAX,
    ensures
        handled(s, KeyCode::Enter).1 == Some(
            OpView::Rename {
                pane: s.active_pane,
                from: joined_path(active_directory(s), s.active().entries[i as int].name),
                to: joined_path(active_directory(s), name),
            },
        ),
{
    let p = s.active();
    assert(p.selected.contains(i));
    assert(!p.selected.is_empty());
    lemma_single_position(p.entries.len(), i, |k: usize| p.selected.contains(k));
    assert(p.selected_positions() == seq![i]);
    assert(p.chosen() =~= seq![p.entries[i as int]]);
}

/// Confirming a delete with nothing selected deletes the entry under the
/// cursor, within the directory the active pane shows, on that pane's side,
/// with its contents exactly when it is a directory.
pub proof fn lemma_delete_under_cursor(s: AppView)
    requires
        s.modal is Some && s.modal->0 is ConfirmDelete,
        s.active().selected == Set::<usize>::empty(),
        s.active().cursor < s.active().entries.len(),
    ensures
        handled(s, KeyCode::Char('y')).1 == Some(
            OpView::Delete {
                pane: s.active_pane,
                path: joined_path(active_directory(s), s.active().entries[s.active().cursor as int].name),
                recursive: s.active().entries[s.active().cursor as int].kind == FileKind::Directory,
            },
        ),
        handled(s, KeyCode::Char('y')).0.modal is None,
{
    assert(s.active().selected.is_empty());
}

/// A copy from the local pane pushes and one from the device pane pulls:
/// with nothing pending before, the first chosen entry goes first, from the
/// active pane's directory to the other pane's, under its own name.
pub proof fn lemma_copy_first_transfer(s: AppView)
    requires
        s.wf(),
        copy_fits(s),
        pending_count(s.queue.jobs) == 0,
        s.active().chosen().len() > 0,
    ensures
        copy_started(s).1 == Some(
            match s.active_pane {
                Pane::Local => OpView::Push {
                    local: joined_path(s.local.path, s.active().chosen()[0].name),
                    remote: joined_path(s.android.path, s.active().chosen()[0].name),
                },
                Pane::Android => OpView::Pull {
                    remote: joined_path(s.android.path, s.active().chosen()[0].name),
                    local: joined_path(s.local.path, s.active().chosen()[0].name),
                },
            },
        ),
{
    let src = s.active();
    let entries = src.chosen();
    let to_android = s.active_pane == Pane::Local;
    let q = queued_all(s.queue, src.path, s.inactive().path, entries, to_android);
    let n = s.queue.jobs.len() as int;
    lemma_queued_direction(s.queue, src.path, s.inactive().path, entries, to_android);
    lemma_pending_count_zero(s.queue.jobs);
    lemma_first_with(q, TransferStatus::Pending);
    assert(q.jobs[n].status == TransferStatus::Pending);
    assert forall|k: int| 0 <= k < n implies #[trigger] q.jobs[k].status != TransferStatus::Pending by {
        assert(q.jobs.take(n)[k] == q.jobs[k]);
        assert(s.queue.jobs[k].status != TransferStatus::Pending);
    }
    let i = q.first_with(TransferStatus::Pending)->0;
    if i < n {
        assert(q.jobs[i].status != TransferStatus::Pending);
    }
    if i > n {
        assert(q.jobs[n].status != TransferStatus::Pending);
    }
    assert(i == n);
}

/// With a dialog open, `Esc` closes it and changes nothing else; so does
/// `q` in a dialog that takes no text.
pub proof fn lemma_escape_closes_dialog(s: AppView, m: ModalView)
    requires
        s.modal == Some(m),
    ensures
        handled(s, KeyCode::Esc) == idle(s.with_modal(None)),
        !takes_text(m) ==> handled(s, KeyCode::Char('q')) == idle(s.with_modal(None)),
{
}

/// In the rename and new-folder dialogs `q` is typed like any character.
pub proof fn lemma_q_typed_in_text_dialogs(s: AppView, buffer: Seq<char>, is_rename: bool)
    requires
        s.modal == Some(text_dialog(buffer, is_rename)),
    ensures
        handled(s, KeyCode::Char('q')) == idle(s.with_modal(Some(text_dialog(buffer.push('q'), is_rename)))),
{
}

/// In the panes, `q` quits and changes nothing else.
pub proof fn lemma_q_quits(s: AppView)
    requires
        s.modal is None,
        s.input_mode == InputMode::Normal,
    ensures
        handled(s, KeyCode::Char('q')) == idle(AppView { should_quit: true, ..s }),
{
}

/// In the panes, `Esc` clears the selection and changes nothing else, so
/// actions apply to the entry under the cursor again.
pub proof fn lemma_escape_clears_selection(s: AppView)
    requires
        s.modal is None,
        s.input_mode == InputMode::Normal,
    ensures
        handled(s, KeyCode::Esc) == idle(s.with_active(s.active().unselected())),
        handled(s, KeyCode::Esc).0.active().chosen() == match s.active().current() {
            Some(e) => seq![e],
            None => Seq::<EntryView>::empty(),
        },
{
}

/// While editing the filter, `Esc` drops it: the panes take keys again and
/// the active pane shows every entry.
pub proof fn lemma_filter_escape_shows_all(s: AppView)
    requires
        s.modal is None,
        s.input_mode == InputMode::Filter,
    ensures
        handled(s, KeyCode::Esc).0.input_mode == InputMode::Normal,
        handled(s, KeyCode::Esc).0.active().filtered_positions() == positions(s.active().entries.len()),
{
    lemma_no_filter_shows_all(handled(s, KeyCode::Esc).0.active());
}

/// While editing the filter, `Backspace` takes back a typed character: the
/// buffer is as before and the active pane filters by it.
pub proof fn lemma_filter_backspace_undoes(s: AppView, c: char)
    requires
        s.modal is None,
        s.input_mode == InputMode::Filter,
    ensures
        ({
            let t = filter_step(filter_step(s, KeyCode::Char(c)), KeyCode::Backspace);
            &&& t.filter_buffer == s.filter_buffer
            &&& t.active().filter == filter_of(s.filter_buffer)
            &&& t.input_mode == InputMode::Filter
        }),
{
    assert(s.filter_buffer.push(c).drop_last() =~= s.filter_buffer);
}

/// In the rename and new-folder dialogs, `Backspace` takes back a typed
/// character.
pub proof fn lemma_dialog_backspace_undoes(s: AppView, buffer: Seq<char>, c: char, is_rename: bool)
    ensures
        text_input_step(
            text_input_step(s, KeyCode::Char(c), buffer, is_rename).0,
            KeyCode::Backspace,
            buffer.push(c),
            is_rename,
        ).0.modal == Some(text_dialog(buffer, is_rename)),
{
    assert(buffer.push(c).drop_last() =~= buffer);
}

/// Handles one key press; gives the operation the key asks for, if any.
pub fn handle(app: &mut App, key: KeyEvent) -> (r: Option<Op>)
    requires
        old(app)@.wf(),
        starts_copy(old(app)@, key.code) ==> copy_fits(old(app)@),
    ensures
        (final(app)@, op_view(r)) == handled(old(app)@, key.code),
        final(app)@.wf(),
{
    let current = match &app.modal {
        Some(m) => Some(m.duplicate()),
        None => None,
    };
    if let Some(modal) = current {
        return handle_modal(app, key, &modal);
    }
    match app.input_mode {
        InputMode::Normal => handle_normal(app, key),
        InputMode::Filter => {
            handle_filter(app, key);
            None
        },
    }
}

fn handle_modal(app: &mut App, key: KeyEvent, modal: &Modal) -> (r: Option<Op>)
    requires
        old(app)@.wf(),
    ensures
        (final(app)@, op_view(r)) == modal_step(old(app)@, key.code, modal@),
        final(app)@.wf(),
{
    let takes_text = match modal {
        Modal::Rename { .. } | Modal::CreateFolder { .. } => true,
        _ => false,
    };
    let closes = match key.code {
        KeyCode::Esc => true,
        KeyCode::Char('q') => !takes_text,
        _ => false,
    };
    if closes {
        app.modal = None;
        return None;
    }
    match modal {
        Modal::DevicePicker { devices } => handle_device_picker(app, key, devices.as_slice()),
        Modal::ConfirmDelete { .. } => handle_confirm_delete(app, key),
        Modal::Rename { buffer } => {
            let mut buf = buffer.clone();
            handle_text_input(app, key, &mut buf, true)
        },
        Modal::CreateFolder { buffer } => {
            let mut buf = buffer.clone();
            handle_text_input(app, key, &mut buf, false)
        },
        _ => None,
    }
}

fn text_modal(buffer: &String, is_rename: bool) -> (r: Modal)
    ensures
        r@ == text_dialog(buffer@, is_rename),
{
    if is_rename {
        Modal::Rename { buffer: buffer.clone() }
    } else {
        Modal::CreateFolder { buffer: buffer.clone() }
    }
}

fn handle_text_input(app: &mut App, key: KeyEvent, buffer: &mut String, is_rename: bool) -> (r: Option<Op>)
    requires
        old(app)@.wf(),
    ensures
        (final(app)@, op_view(r)) == text_input_step(old(app)@, key.code, old(buffer)@, is_rename),
        final(app)@.wf(),
        final(buffer)@ == match key.code {
            KeyCode::Backspace => if old(buffer)@.len() > 0 {
                old(buffer)@.drop_last()
            } else {
                old(buffer)@
            },
            KeyCode::Char(c) => old(buffer)@.push(c),
            _ => old(buffer)@,
        },
{
    match key.code {
        KeyCode::Enter => {
            let text_value = buffer.clone();
            app.modal = None;
            if text_value.as_str().is_empty() {
                return None;
            }
            if is_rename {
                do_rename(app, text_value)
            } else {
                Some(do_create_folder(app, text_value))
            }
        },
        KeyCode::Backspace => {
            let _ = pop_char(buffer);
            app.modal = Some(text_modal(buffer, is_rename));
            None
        },
        KeyCode::Char(c) => {
            push_char(buffer, c);
            app.modal = Some(text_modal(buffer, is_rename));
            None
        },
        _ => None,
    }
}

/// The entry to rename in a pane, copied.
fn rename_entry(p: &crate::app::PaneState) -> (r: Option<FileEntry>)
    ensures
        match rename_target(p@) {
            Some(e) => r matches Some(x) && x@ == e,
            None => r is None,
        },
{
    let mut chosen = p.chosen_entries();
    if chosen.len() == 1 {
        let e = chosen.remove(0);
        Some(e)
    } else {
        None
    }
}

fn do_rename(app: &mut App, new_name: String) -> (r: Option<Op>)
    requires
        old(app)@.wf(),
    ensures
        (final(app)@, op_view(r)) == rename_started(old(app)@, new_name@),
        final(app)@.wf(),
{
    match rename_entry(app.active_pane()) {
        Some(entry) => {
            let base = app.active_pane().path.as_str();
            let from = path_join(base, entry.name.as_str());
            let to = path_join(base, new_name.as_str());
            let pane = app.active_pane;
            app.waiting = Some(Waiting::Renamed { name: new_name });
            Some(Op::Rename { pane, from, to })
        },
        None => None,
    }
}

fn do_create_folder(app: &mut App, name: String) -> (r: Op)
    requires
        old(app)@.wf(),
    ensures
        (final(app)@, Some(r@)) == create_started(old(app)@, name@),
        final(app)@.wf(),
{
    let path = path_join(app.active_pane().path.as_str(), name.as_str());
    let pane = app.active_pane;
    app.waiting = Some(Waiting::Created { name });
    Op::Mkdir { pane, path }
}

fn handle_device_picker(app: &mut App, key: KeyEvent, devices: &[Device]) -> (r: Option<Op>)
    requires
        old(app)@.wf(),
    ensures
        (final(app)@, op_view(r)) == picker_step(old(app)@, key.code, devices@.map_values(|d: Device| d@)),
        final(app)@.wf(),
{
    match key.code {
        KeyCode::Enter => {
            if devices.len() > 0 {
                let serial = devices[0].serial.clone();
                app.adb.serial = Some(serial);
                app.modal = None;
                app.status_message = text("device selected");
                Some(app.refresh_active_pane())
            } else {
                None
            }
        },
        _ => None,
    }
}

fn handle_confirm_delete(app: &mut App, key: KeyEvent) -> (r: Option<Op>)
    requires
        old(app)@.wf(),
    ensures
        (final(app)@, op_view(r)) == confirm_step(old(app)@, key.code),
        final(app)@.wf(),
{
    match key.code {
        KeyCode::Char('y') | KeyCode::Char('Y') => {
            app.modal = None;
            Some(execute_delete(app))
        },
        KeyCode::Char('n') | KeyCode::Char('N') | KeyCode::Esc => {
            app.modal = None;
            None
        },
        _ => None,
    }
}

/// Asks for the deletion of the first of `targets`, or, when none is left,
/// for a new listing of `pane`.
fn delete_first(app: &mut App, pane: Pane, base: String, targets: Vec<FileEntry>) -> (r: Op)
    requires
        old(app)@.wf(),
    ensures
        (final(app)@, Some(r@)) == delete_next(old(app)@, pane, base@, entries_view(targets@)),
        final(app)@.wf(),
{
    if targets.len() == 0 {
        return app.start_listing(pane, false);
    }
    let mut rest = targets;
    let ghost all = entries_view(rest@);
    let first = rest.remove(0);
    assert(entries_view(rest@) =~= all.drop_first());
    let path = path_join(base.as_str(), first.name.as_str());
    let recursive = first.is_dir();
    app.waiting = Some(Waiting::Deleting { pane, base, name: first.name, rest });
    Op::Delete { pane, path, recursive }
}

fn execute_delete(app: &mut App) -> (r: Op)
    requires
        old(app)@.wf(),
    ensures
        (final(app)@, Some(r@)) == delete_started(old(app)@),
        final(app)@.wf(),
{
    let targets = app.active_pane().chosen_entries();
    let base = copy_string(&app.active_pane().path);
    let pane = app.active_pane;
    delete_first(app, pane, base, targets)
}

fn handle_normal(app: &mut App, key: KeyEvent) -> (r: Option<Op>)
    requires
        old(app)@.wf(),
        old(app)@.modal is None,
        old(app)@.input_mode == InputMode::Normal,
        key.code == KeyCode::Char('c') ==> copy_fits(old(app)@),
    ensures
        (final(app)@, op_view(r)) == normal_step(old(app)@, key.code),
        final(app)@.wf(),
{
    match key.code {
        KeyCode::Char('q') => {
            app.should_quit = true;
            None
        },
        KeyCode::Tab => {
            app.switch_pane();
            None
        },
        KeyCode::Up | KeyCode::Char('k') => {
            match app.active_pane {
                Pane::Local => app.local.cursor_up(),
                Pane::Android => app.android.cursor_up(),
            }
            None
        },
        KeyCode::Down | KeyCode::Char('j') => {
            match app.active_pane {
                Pane::Local => app.local.cursor_down(),
                Pane::Android => app.android.cursor_down(),
            }
            None
        },
        KeyCode::PageUp => {
            match app.active_pane {
                Pane::Local => app.local.page_up(),
                Pane::Android => app.android.page_up(),
            }
            None
        },
        KeyCode::PageDown => {
            match app.active_pane {
                Pane::Local => app.local.page_down(),
                Pane::Android => app.android.page_down(),
            }
            None
        },
        KeyCode::Enter | KeyCode::Char('l') => app.enter_directory(),
        KeyCode::Backspace | KeyCode::Char('h') => app.go_to_parent(),
        KeyCode::Char(' ') => {
            let cursor = app.active_pane().cursor;
            match app.active_pane {
                Pane::Local => app.local.toggle_select(cursor),
                Pane::Android => app.android.toggle_select(cursor),
            }
            None
        },
        KeyCode::Char('a') => {
            match app.active_pane {
                Pane::Local => app.local.select_all(),
                Pane::Android => app.android.select_all(),
            }
            None
        },
        KeyCode::Esc => {
            match app.active_pane {
                Pane::Local => app.local.clear_selection(),
                Pane::Android => app.android.clear_selection(),
            }
            None
        },
        KeyCode::Char('R') => Some(app.refresh_active_pane()),
        KeyCode::Char('d') => {
            prompt_delete(app);
            None
        },
        KeyCode::Char('r') => {
            prompt_rename(app);
            None
        },
        KeyCode::Char('n') => {
            app.modal = Some(Modal::CreateFolder { buffer: String::new() });
            None
        },
        KeyCode::Char('c') => start_copy(app),
        KeyCode::Char('/') => {
            app.input_mode = InputMode::Filter;
            app.filter_buffer = String::new();
            None
        },
        KeyCode::Char('t') => {
            if app.transfer_queue.jobs.len() > 0 {
                app.modal = Some(Modal::TransferProgress);
            }
            None
        },
        KeyCode::Char('x') => {
            if app.transfer_queue.has_active() {
                app.transfer_queue.cancel_active();
                app.status_message = text("transfer cancelled");
            }
            None
        },
        KeyCode::Char('?') => {
            app.show_help();
            None
        },
        _ => None,
    }
}

fn entry_names(entries: &Vec<FileEntry>) -> (r: Vec<String>)
    ensures
        r@.map_values(|s: String| s@) == entries_view(entries@).map_values(|e: EntryView| e.name),
{
    let mut out: Vec<String> = Vec::new();
    let mut i: usize = 0;
    while i < entries.len()
        invariant
            i <= entries.len(),
            out@.map_values(|s: String| s@) =~= entries_view(entries@).take(i as int).map_values(
                |e: EntryView| e.name,
            ),
        decreases entries.len() - i,
    {
        let ghost before = out@;
        out.push(entries[i].name.clone());
        assert(out@.map_values(|s: String| s@) =~= before.map_values(|s: String| s@).push(
            entries@[i as int].name@,
        ));
        i = i + 1;
    }
    assert(entries_view(entries@).take(entries.len() as int) =~= entries_view(entries@));
    out
}

fn prompt_delete(app: &mut App)
    requires
        old(app)@.wf(),
    ensures
        final(app)@ == delete_prompted(old(app)@),
        final(app)@.wf(),
{
    let chosen = app.active_pane().chosen_entries();
    let paths = entry_names(&chosen);
    if paths.len() == 0 {
        app.status_message = text("nothing selected");
        return;
    }
    app.modal = Some(Modal::ConfirmDelete { paths });
}

fn prompt_rename(app: &mut App)
    requires
        old(app)@.wf(),
    ensures
        final(app)@ == rename_prompted(old(app)@),
        final(app)@.wf(),
{
    if app.active_pane().selected.len() > 1 {
        app.status_message = text("select only one item to rename");
        return;
    }
    if let Some(entry) = rename_entry(app.active_pane()) {
        app.modal = Some(Modal::Rename { buffer: entry.name });
    }
}

fn start_copy(app: &mut App) -> (r: Option<Op>)
    requires
        old(app)@.wf(),
        copy_fits(old(app)@),
    ensures
        (final(app)@, op_view(r)) == copy_started(old(app)@),
        final(app)@.wf(),
{
    let active = app.active_pane;
    let src_path = copy_string(&app.active_pane().path);
    let dst_path = match active {
        Pane::Local => copy_string(&app.android.path),
        Pane::Android => copy_string(&app.local.path),
    };
    let to_android = match active {
        Pane::Local => true,
        Pane::Android => false,
    };
    let entries = app.active_pane().chosen_entries();
    if entries.len() == 0 {
        app.status_message = text("nothing to copy");
        return None;
    }
    let ghost s0 = app@;
    let ghost es = s0.active().chosen();
    let mut k: usize = 0;
    while k < entries.len()
        invariant
            k <= entries.len(),
            entries_view(entries@) == es,
            es == s0.active().chosen(),
            s0.wf(),
            copy_fits(s0),
            src_path@ == s0.active().path,
            dst_path@ == s0.inactive().path,
            to_android == (s0.active_pane == Pane::Local),
            app@ == (AppView {
                queue: queued_all(s0.queue, src_path@, dst_path@, es.take(k as int), to_android),
                ..s0
            }),
        decreases entries.len() - k,
    {
        let entry = &entries[k];
        proof {
            assert(es.take(k + 1).drop_last() =~= es.take(k as int));
            assert(es.take(k + 1).last() == entry@);
            lemma_queued_all(s0.queue, src_path@, dst_path@, es.take(k as int), to_android);
        }
        let src = path_join(src_path.as_str(), entry.name.as_str());
        let dst = path_join(dst_path.as_str(), entry.name.as_str());
        app.transfer_queue.add(src, dst, to_android, entry.is_dir());
        k = k + 1;
    }
    proof {
        assert(es.take(entries.len() as int) =~= es);
        lemma_queued_all(s0.queue, src_path@, dst_path@, es, to_android);
    }
    let mut m = text("queued ");
    push_decimal(&mut m, entries.len() as u128);
    push_text(&mut m, " transfer(s)");
    app.status_message = m;
    start_next_transfer(app)
}

/// Starts the first pending job, if there is one.
fn start_next_transfer(app: &mut App) -> (r: Option<Op>)
    requires
        old(app)@.wf(),
    ensures
        (final(app)@, op_view(r)) == transfer_started(old(app)@),
        final(app)@.wf(),
{
    let next = match app.transfer_queue.next_pending() {
        Some(job) => Some((job.id, job.source.clone(), job.destination.clone(), job.to_android)),
        None => None,
    };
    match next {
        Some((id, src, dst, to_android)) => {
            proof {
                lemma_set_status_wf(app@.queue, id, TransferStatus::InProgress, None);
            }
            app.transfer_queue.mark_started(id);
            let mut m = text("transferring ");
            push_text(&mut m, src.as_str());
            push_text(&mut m, " -> ");
            push_text(&mut m, dst.as_str());
            app.status_message = m;
            app.waiting = Some(Waiting::Transfer { id, source: copy_string(&src) });
            if to_android {
                Some(Op::Push { local: src, remote: dst })
            } else {
                Some(Op::Pull { remote: src, local: dst })
            }
        },
        None => None,
    }
}

fn finish_transfer(app: &mut App, id: usize, source: String, result: Result<(), String>) -> (r: Option<Op>)
    requires
        old(app)@.wf(),
    ensures
        (final(app)@, op_view(r)) == transfer_finished(
            old(app)@,
            id,
            source@,
            match result {
                Ok(()) => Ok(()),
                Err(m) => Err(m@),
            },
        ),
        final(app)@.wf(),
{
    match result {
        Ok(()) => {
            proof {
                lemma_finished_keeps(app@.queue, id, TransferStatus::Completed, None);
            }
            app.transfer_queue.finish(id, TransferStatus::Completed, None);
            let mut done = text("transfer complete: ");
            push_text(&mut done, source.as_str());
            app.status_message = done;
            let pane = app.active_pane;
            Some(app.start_listing_then(pane, false, true))
        },
        Err(m) => {
            proof {
                lemma_finished_keeps(app@.queue, id, TransferStatus::Failed, Some(m@));
            }
            let mut failed = text("transfer failed: ");
            push_text(&mut failed, m.as_str());
            app.transfer_queue.finish(id, TransferStatus::Failed, Some(m));
            app.status_message = failed;
            start_next_transfer(app)
        },
    }
}

fn listing_came(
    app: &mut App,
    pane: Pane,
    startup: bool,
    transfers: bool,
    result: Result<Vec<FileEntry>, String>,
) -> (r: Option<Op>)
    requires
        old(app)@.wf(),
    ensures
        (final(app)@, op_view(r)) == after_listing(
            old(app)@,
            pane,
            startup,
            transfers,
            match result {
                Ok(v) => Ok(entries_view(v@)),
                Err(m) => Err(m@),
            },
        ),
        final(app)@.wf(),
{
    let next = app.take_listing(pane, startup, result);
    if transfers && next.is_none() {
        start_next_transfer(app)
    } else {
        next
    }
}

fn set_active_filter(app: &mut App, filter: Option<String>)
    ensures
        final(app)@ == with_filter(old(app)@, opt_view(filter)),
{
    match app.active_pane {
        Pane::Local => app.local.filter = filter,
        Pane::Android => app.android.filter = filter,
    }
}

fn handle_filter(app: &mut App, key: KeyEvent)
    requires
        old(app)@.wf(),
    ensures
        final(app)@ == filter_step(old(app)@, key.code),
        final(app)@.wf(),
{
    match key.code {
        KeyCode::Esc => {
            app.input_mode = InputMode::Normal;
            set_active_filter(app, None);
        },
        KeyCode::Enter => {
            app.input_mode = InputMode::Normal;
        },
        KeyCode::Backspace => {
            let _ = pop_char(&mut app.filter_buffer);
            let f = if app.filter_buffer.as_str().is_empty() {
                None
            } else {
                Some(app.filter_buffer.clone())
            };
            set_active_filter(app, f);
        },
        KeyCode::Char(c) => {
            push_char(&mut app.filter_buffer, c);
            let f = Some(app.filter_buffer.clone());
            set_active_filter(app, f);
        },
        _ => {},
    }
}

impl App {
    /// Takes the outcome of the operation asked for last and gives the
    /// operation that comes next, if any.
    #[verifier::rlimit(60)]
    pub fn resume(&mut self, outcome: Outcome) -> (r: Option<Op>)
        requires
            old(self)@.wf(),
        ensures
            (final(self)@, op_view(r)) == resumed(old(self)@, outcome@),
            final(self)@.wf(),
    {
        let waiting = match self.waiting.take() {
            Some(w) => w,
            None => return None,
        };
        match waiting {
            Waiting::Devices => match outcome {
                Outcome::Found(found) => {
                    self.take_devices(found);
                    Some(self.start_listing(Pane::Local, self.adb.serial.is_some()))
                },
                other => {
                    self.waiting = Some(Waiting::Devices);
                    None
                },
            },
            Waiting::Listing { pane, startup, transfers } => match outcome {
                Outcome::Listed(result) => listing_came(self, pane, startup, transfers, result),
                Outcome::Unsupported => match pane {
                    Pane::Android => {
                        self.waiting = Some(Waiting::PlainListing { startup, transfers });
                        Some(Op::ListPlain { path: copy_string(&self.android.path) })
                    },
                    Pane::Local => {
                        self.waiting = Some(Waiting::Listing { pane, startup, transfers });
                        None
                    },
                },
                other => {
                    self.waiting = Some(Waiting::Listing { pane, startup, transfers });
                    None
                },
            },
            Waiting::PlainListing { startup, transfers } => match outcome {
                Outcome::Listed(result) => listing_came(self, Pane::Android, startup, transfers, result),
                other => {
                    self.waiting = Some(Waiting::PlainListing { startup, transfers });
                    None
                },
            },
            Waiting::Renamed { name } => match outcome {
                Outcome::Done(Ok(())) => {
                    let mut m = text("renamed to ");
                    push_text(&mut m, name.as_str());
                    self.status_message = m;
                    Some(self.refresh_active_pane())
                },
                Outcome::Done(Err(m)) => {
                    self.show_error(m);
                    None
                },
                other => {
                    self.waiting = Some(Waiting::Renamed { name });
                    None
                },
            },
            Waiting::Created { name } => match outcome {
                Outcome::Done(Ok(())) => {
                    let mut m = text("created folder ");
                    push_text(&mut m, name.as_str());
                    self.status_message = m;
                    Some(self.refresh_active_pane())
                },
                Outcome::Done(Err(m)) => {
                    self.show_error(m);
                    None
                },
                other => {
                    self.waiting = Some(Waiting::Created { name });
                    None
                },
            },
            Waiting::Deleting { pane, base, name, rest } => match outcome {
                Outcome::Done(Ok(())) => {
                    let mut m = text("deleted ");
                    push_text(&mut m, name.as_str());
                    self.status_message = m;
                    Some(delete_first(self, pane, base, rest))
                },
                Outcome::Done(Err(e)) => {
                    let mut m = text("failed to delete ");
                    push_text(&mut m, name.as_str());
                    push_text(&mut m, ": ");
                    push_text(&mut m, e.as_str());
                    self.show_error(m);
                    None
                },
                other => {
                    self.waiting = Some(Waiting::Deleting { pane, base, name, rest });
                    None
                },
            },
            Waiting::Transfer { id, source } => match outcome {
                Outcome::Done(result) => finish_transfer(self, id, source, result),
                other => {
                    self.waiting = Some(Waiting::Transfer { id, source });
                    None
                },
            },
        }
    }
}

} // verus!
