//! The state of the browser: two panes, the open dialog, the status line and
//! the transfer queue.
use std::collections::HashSet;

use vstd::prelude::*;

use crate::adb::AdbClient;
use crate::file_entry::{
    is_sorted, lemma_sorted_entries, opt_view, sort_entries, sorted_entries, Device, DeviceView,
    EntryView, FileEntry,
};
use crate::ops::{op_view, Op, OpView};
use crate::paths::{joined_path, parent_path, path_join, path_parent};
use crate::text::{
    chars_contain, chars_of, copy_string, lowercase_of, push_text, seq_contains, str_eq, text, to_lower,
};
use crate::transfer::{QueueView, TransferQueue};

verus! {

/// One of the two panes.
#[derive(Debug, Clone, Copy, PartialEq, Eq, Structural)]
pub enum Pane {
    Local,
    Android,
}

/// The dialog shown over the panes.
#[derive(Debug, Clone)]
pub enum Modal {
    Help,
    Error { message: String },
    DevicePicker { devices: Vec<Device> },
    ConfirmDelete { paths: Vec<String> },
    Rename { buffer: String },
    CreateFolder { buffer: String },
    TransferProgress,
}

/// The plain values of a `Modal`.
pub enum ModalView {
    Help,
    Error { message: Seq<char> },
    DevicePicker { devices: Seq<DeviceView> },
    ConfirmDelete { paths: Seq<Seq<char>> },
    Rename { buffer: Seq<char> },
    CreateFolder { buffer: Seq<char> },
    TransferProgress,
}

/// The characters of each string.
pub open spec fn strings_view(v: Seq<String>) -> Seq<Seq<char>> {
    v.map_values(|s: String| s@)
}

/// The plain values of each device.
pub open spec fn devices_view(v: Seq<Device>) -> Seq<DeviceView> {
    v.map_values(|d: Device| d@)
}

/// The plain values of each entry.
pub open spec fn entries_view(v: Seq<FileEntry>) -> Seq<EntryView> {
    v.map_values(|e: FileEntry| e@)
}

impl View for Modal {
    type V = ModalView;

    open spec fn view(&self) -> ModalView {
        match self {
            Modal::Help => ModalView::Help,
            Modal::Error { message } => ModalView::Error { message: message@ },
            Modal::DevicePicker { devices } => ModalView::DevicePicker {
                devices: devices_view(devices@),
            },
            Modal::ConfirmDelete { paths } => ModalView::ConfirmDelete {
                paths: strings_view(paths@),
            },
            Modal::Rename { buffer } => ModalView::Rename { buffer: buffer@ },
            Modal::CreateFolder { buffer } => ModalView::CreateFolder { buffer: buffer@ },
            Modal::TransferProgress => ModalView::TransferProgress,
        }
    }
}

fn copy_devices(v: &Vec<Device>) -> (r: Vec<Device>)
    ensures
        devices_view(r@) == devices_view(v@),
{
    let mut out: Vec<Device> = Vec::new();
    let mut i: usize = 0;
    while i < v.len()
        invariant
            i <= v.len(),
            devices_view(out@) =~= devices_view(v@.take(i as int)),
        decreases v.len() - i,
    {
        let ghost before = out@;
        out.push(v[i].duplicate());
        assert(devices_view(out@) =~= devices_view(before).push(v@[i as int]@));
        assert(v@.take(i + 1) =~= v@.take(i as int).push(v@[i as int]));
        i = i + 1;
    }
    assert(v@.take(v.len() as int) =~= v@);
    out
}

fn copy_strings(v: &Vec<String>) -> (r: Vec<String>)
    ensures
        strings_view(r@) == strings_view(v@),
{
    let mut out: Vec<String> = Vec::new();
    let mut i: usize = 0;
    while i < v.len()
        invariant
            i <= v.len(),
            strings_view(out@) =~= strings_view(v@.take(i as int)),
        decreases v.len() - i,
    {
        let ghost before = out@;
        out.push(v[i].clone());
        assert(strings_view(out@) =~= strings_view(before).push(v@[i as int]@));
        assert(v@.take(i + 1) =~= v@.take(i as int).push(v@[i as int]));
        i = i + 1;
    }
    assert(v@.take(v.len() as int) =~= v@);
    out
}

impl Modal {
    /// A copy of the dialog with the same values.
    pub fn duplicate(&self) -> (r: Modal)
        ensures
            r@ == self@,
    {
        match self {
            Modal::Help => Modal::Help,
            Modal::Error { message } => Modal::Error { message: message.clone() },
            Modal::DevicePicker { devices } => Modal::DevicePicker { devices: copy_devices(devices) },
            Modal::ConfirmDelete { paths } => Modal::ConfirmDelete { paths: copy_strings(paths) },
            Modal::Rename { buffer } => Modal::Rename { buffer: buffer.clone() },
            Modal::CreateFolder { buffer } => Modal::CreateFolder { buffer: buffer.clone() },
            Modal::TransferProgress => Modal::TransferProgress,
        }
    }
}

/// Whether keys move the cursor or edit the filter.
#[derive(Debug, Clone, Copy, PartialEq, Eq, Structural)]
pub enum InputMode {
    Normal,
    Filter,
}

/// How far `PageUp` and `PageDown` move the cursor.
pub const PAGE_SIZE: usize = 10;

/// One pane: a directory, its entries, the selected positions, the cursor
/// and the name filter.
#[derive(Debug)]
pub struct PaneState {
    pub path: String,
    pub entries: Vec<FileEntry>,
    pub selected: HashSet<usize>,
    pub cursor: usize,
    pub loading: bool,
    pub filter: Option<String>,
}

/// The plain values of a `PaneState`.
#[verifier::ext_equal]
pub struct PaneView {
    pub path: Seq<char>,
    pub entries: Seq<EntryView>,
    pub selected: Set<usize>,
    pub cursor: usize,
    pub loading: bool,
    pub filter: Option<Seq<char>>,
}

impl View for PaneState {
    type V = PaneView;

    open spec fn view(&self) -> PaneView {
        PaneView {
            path: self.path@,
            entries: entries_view(self.entries@),
            selected: self.selected@,
            cursor: self.cursor,
            loading: self.loading,
            filter: opt_view(self.filter),
        }
    }
}

/// The positions `0 .. n`, in order.
pub open spec fn positions(n: nat) -> Seq<usize> {
    Seq::new(n, |k: int| k as usize)
}

/// The first row of `rows` that holds `x`.
pub open spec fn row_of(rows: Seq<usize>, x: usize) -> Option<int>
    decreases rows.len(),
{
    if rows.len() == 0 {
        None
    } else if rows[0] == x {
        Some(0)
    } else {
        match row_of(rows.drop_first(), x) {
            Some(k) => Some(k + 1),
            None => None,
        }
    }
}

proof fn lemma_row_of(rows: Seq<usize>, x: usize, k: int)
    requires
        0 <= k <= rows.len(),
        forall|j: int| 0 <= j < k ==> rows[j] != x,
    ensures
        k < rows.len() && rows[k] == x ==> row_of(rows, x) == Some(k),
        k == rows.len() ==> row_of(rows, x) is None,
    decreases k,
{
    if k > 0 {
        let r = rows.drop_first();
        assert forall|j: int| 0 <= j < k - 1 implies r[j] != x by {
            assert(r[j] == rows[j + 1]);
        }
        lemma_row_of(r, x, k - 1);
        assert(rows[0] != x);
    }
}

impl PaneView {
    /// The entry under the cursor.
    pub open spec fn current(self) -> Option<EntryView> {
        if self.cursor < self.entries.len() {
            Some(self.entries[self.cursor as int])
        } else {
            None
        }
    }

    /// The entry passes the filter: there is none, or its lowercase name
    /// contains the lowercase filter.
    pub open spec fn passes_filter(self, e: EntryView) -> bool {
        match self.filter {
            None => true,
            Some(f) => seq_contains(lowercase_of(e.name), lowercase_of(f)),
        }
    }

    /// The row that shows the entry under the cursor, among the rows shown;
    /// none when the filter hides that entry.
    pub open spec fn highlighted_row(self) -> Option<int> {
        row_of(self.filtered_positions(), self.cursor)
    }

    /// The positions of the entries that pass the filter, in order.
    pub open spec fn filtered_positions(self) -> Seq<usize> {
        positions(self.entries.len()).filter(|k: usize| self.passes_filter(self.entries[k as int]))
    }

    /// The entries an action applies to: the selected ones, or the one under
    /// the cursor when nothing is selected.
    pub open spec fn chosen(self) -> Seq<EntryView> {
        if self.selected.is_empty() {
            match self.current() {
                Some(e) => seq![e],
                None => Seq::empty(),
            }
        } else {
            self.selected_positions().map_values(|k: usize| self.entries[k as int])
        }
    }

    /// The selected positions that hold an entry, in increasing order.
    pub open spec fn selected_positions(self) -> Seq<usize> {
        positions(self.entries.len()).filter(|k: usize| self.selected.contains(k))
    }

    pub open spec fn with_cursor(self, cursor: usize) -> PaneView {
        PaneView { cursor, ..self }
    }

    /// One entry up, staying at the top.
    pub open spec fn moved_up(self) -> PaneView {
        self.with_cursor(if self.cursor > 0 { (self.cursor - 1) as usize } else { 0 })
    }

    /// One entry down, staying at the last entry.
    pub open spec fn moved_down(self) -> PaneView {
        self.with_cursor(
            if self.cursor + 1 < self.entries.len() { (self.cursor + 1) as usize } else { self.cursor },
        )
    }

    /// A page up, stopping at the top.
    pub open spec fn paged_up(self) -> PaneView {
        self.with_cursor(
            if self.cursor >= PAGE_SIZE { (self.cursor - PAGE_SIZE) as usize } else { 0 },
        )
    }

    /// A page down, stopping at the last entry.
    pub open spec fn paged_down(self) -> PaneView {
        if self.entries.len() == 0 {
            self
        } else if self.cursor + PAGE_SIZE < self.entries.len() - 1 {
            self.with_cursor((self.cursor + PAGE_SIZE) as usize)
        } else {
            self.with_cursor((self.entries.len() - 1) as usize)
        }
    }

    /// The selection with position `i` added, or removed if it was there.
    pub open spec fn toggled(self, i: usize) -> PaneView {
        PaneView {
            selected: if self.selected.contains(i) {
                self.selected.remove(i)
            } else {
                self.selected.insert(i)
            },
            ..self
        }
    }

    /// Every entry selected.
    pub open spec fn all_selected(self) -> PaneView {
        PaneView { selected: Set::new(|k: usize| k < self.entries.len()), ..self }
    }

    /// Nothing selected.
    pub open spec fn unselected(self) -> PaneView {
        PaneView { selected: Set::empty(), ..self }
    }

    /// The pane showing a new listing: loaded, nothing selected, the cursor
    /// kept where it still points at an entry, else on the last one.
    pub open spec fn with_entries(self, entries: Seq<EntryView>) -> PaneView {
        PaneView {
            entries,
            loading: false,
            selected: Set::empty(),
            cursor: if self.cursor < entries.len() {
                self.cursor
            } else if entries.len() > 0 {
                (entries.len() - 1) as usize
            } else {
                0
            },
            ..self
        }
    }

    /// The pane in another directory, cursor at the top, before listing it.
    pub open spec fn at_path(self, path: Seq<char>) -> PaneView {
        PaneView { path, cursor: 0, ..self }
    }

    /// The cursor is on an entry, or at the top of an empty pane.
    pub open spec fn cursor_on_entry(self) -> bool {
        if self.entries.len() == 0 {
            self.cursor == 0
        } else {
            self.cursor < self.entries.len()
        }
    }
}

/// Toggling the same position twice gives back the selection.
pub proof fn lemma_toggle_twice(p: PaneView, i: usize)
    ensures
        p.toggled(i).toggled(i) == p,
{
    assert(p.toggled(i).toggled(i).selected =~= p.selected);
    assert(p.toggled(i).toggled(i) =~= p);
}

impl PaneState {
    /// A pane for a directory that has not been listed yet.
    pub fn new(path: String) -> (r: PaneState)
        ensures
            r@.path == path@,
            r@.entries == Seq::<EntryView>::empty(),
            r@.selected == Set::<usize>::empty(),
            r@.cursor == 0,
            !r@.loading,
            r@.filter is None,
    {
        let r = PaneState {
            path,
            entries: Vec::new(),
            selected: HashSet::new(),
            cursor: 0,
            loading: false,
            filter: None,
        };
        assert(r@.entries =~= Seq::<EntryView>::empty());
        r
    }

    /// The entries that pass the filter, each with its position, in order.
    pub fn filtered_entries(&self) -> (r: Vec<(usize, &FileEntry)>)
        ensures
            r@.map_values(|p: (usize, &FileEntry)| p.0) == self@.filtered_positions(),
            forall|k: int| 0 <= k < r@.len() ==> (#[trigger] r@[k]).1@ == self@.entries[r@[k].0 as int],
    {
        let ghost pred = |k: usize| self@.passes_filter(self@.entries[k as int]);
        let lowered: Option<Vec<char>> = match &self.filter {
            Some(f) => {
                let lf = to_lower(f.as_str());
                Some(chars_of(lf.as_str()))
            },
            None => None,
        };
        let mut out: Vec<(usize, &FileEntry)> = Vec::new();
        let mut i: usize = 0;
        while i < self.entries.len()
            invariant
                i <= self.entries.len(),
                pred == (|k: usize| self@.passes_filter(self@.entries[k as int])),
                match self.filter {
                    Some(f) => lowered matches Some(lv) && lv@ == lowercase_of(f@),
                    None => lowered is None,
                },
                out@.map_values(|p: (usize, &FileEntry)| p.0) =~= positions(self.entries.len() as nat).take(
                    i as int,
                ).filter(pred),
                forall|k: int| 0 <= k < out@.len() ==> (#[trigger] out@[k]).1@ == self@.entries[out@[k].0 as int],
            decreases self.entries.len() - i,
        {
            let e = &self.entries[i];
            let keep = match &lowered {
                None => true,
                Some(lv) => {
                    let ln = to_lower(e.name.as_str());
                    let lnc = chars_of(ln.as_str());
                    chars_contain(&lnc, lv)
                },
            };
            proof {
                lemma_positions_take_step(self.entries.len() as nat, i as int, pred);
                assert(self@.entries[i as int] == self.entries@[i as int]@);
                assert(keep == pred(i));
            }
            let ghost before = out@;
            if keep {
                out.push((i, e));
                assert(out@.map_values(|p: (usize, &FileEntry)| p.0) =~= before.map_values(
                    |p: (usize, &FileEntry)| p.0,
                ).push(i));
            }
            i = i + 1;
        }
        assert(positions(self.entries.len() as nat).take(self.entries.len() as int) =~= positions(
            self.entries.len() as nat,
        ));
        out
    }

    /// The row to highlight: the one that shows the entry under the cursor,
    /// among the rows shown; none when the filter hides it.
    pub fn highlighted_row(&self) -> (r: Option<usize>)
        ensures
            match self@.highlighted_row() {
                Some(k) => r == Some(k as usize),
                None => r is None,
            },
    {
        let rows = self.filtered_entries();
        let ghost fp = self@.filtered_positions();
        assert(rows@.map_values(|p: (usize, &FileEntry)| p.0).len() == rows@.len());
        let mut k: usize = 0;
        while k < rows.len()
            invariant
                k <= rows.len(),
                fp == self@.filtered_positions(),
                rows@.map_values(|p: (usize, &FileEntry)| p.0) == fp,
                forall|j: int| 0 <= j < k ==> fp[j] != self.cursor,
            decreases rows.len() - k,
        {
            assert(fp[k as int] == rows@[k as int].0);
            if rows[k].0 == self.cursor {
                proof {
                    lemma_row_of(fp, self.cursor, k as int);
                }
                return Some(k);
            }
            k = k + 1;
        }
        proof {
            lemma_row_of(fp, self.cursor, k as int);
        }
        None
    }

    /// The entry under the cursor.
    pub fn current_entry(&self) -> (r: Option<&FileEntry>)
        ensures
            match self@.current() {
                Some(e) => r matches Some(x) && x@ == e,
                None => r is None,
            },
    {
        if self.cursor < self.entries.len() {
            Some(&self.entries[self.cursor])
        } else {
            None
        }
    }

    /// Moves the cursor one entry up.
    pub fn cursor_up(&mut self)
        ensures
            final(self)@ == old(self)@.moved_up(),
    {
        if self.cursor > 0 {
            self.cursor = self.cursor - 1;
        }
    }

    /// Moves the cursor one entry down.
    pub fn cursor_down(&mut self)
        ensures
            final(self)@ == old(self)@.moved_down(),
    {
        if self.cursor < self.entries.len() && self.entries.len() - self.cursor > 1 {
            self.cursor = self.cursor + 1;
        }
    }

    /// Moves the cursor a page up.
    pub fn page_up(&mut self)
        ensures
            final(self)@ == old(self)@.paged_up(),
    {
        if self.cursor >= PAGE_SIZE {
            self.cursor = self.cursor - PAGE_SIZE;
        } else {
            self.cursor = 0;
        }
    }

    /// Moves the cursor a page down.
    pub fn page_down(&mut self)
        ensures
            final(self)@ == old(self)@.paged_down(),
    {
        let len: usize = self.entries.len();
        if len > 0 {
            let last: usize = len - 1;
            if self.cursor < last && last - self.cursor > PAGE_SIZE {
                self.cursor = self.cursor + PAGE_SIZE;
            } else {
                self.cursor = last;
            }
        }
    }

    /// Selects position `i`, or unselects it if it was selected.
    pub fn toggle_select(&mut self, i: usize)
        ensures
            final(self)@ == old(self)@.toggled(i),
    {
        broadcast use vstd::std_specs::hash::group_hash_axioms;

        if self.selected.contains(&i) {
            self.selected.remove(&i);
        } else {
            self.selected.insert(i);
        }
        assert(self@ =~= old(self)@.toggled(i));
    }

    /// Selects every entry.
    pub fn select_all(&mut self)
        ensures
            final(self)@ == old(self)@.all_selected(),
    {
        broadcast use vstd::std_specs::hash::group_hash_axioms;

        self.selected.clear();
        let mut k: usize = 0;
        while k < self.entries.len()
            invariant
                k <= self.entries.len(),
                self.selected@ =~= Set::new(|j: usize| j < k),
                self.entries == old(self).entries,
                self.path == old(self).path,
                self.cursor == old(self).cursor,
                self.loading == old(self).loading,
                self.filter == old(self).filter,
            decreases self.entries.len() - k,
        {
            self.selected.insert(k);
            k = k + 1;
        }
        assert(self@ =~= old(self)@.all_selected());
    }

    /// Unselects everything.
    pub fn clear_selection(&mut self)
        ensures
            final(self)@ == old(self)@.unselected(),
    {
        self.selected.clear();
        assert(self@ =~= old(self)@.unselected());
    }

    /// Shows a new listing in the pane.
    pub fn set_entries(&mut self, entries: Vec<FileEntry>)
        ensures
            final(self)@ == old(self)@.with_entries(entries_view(entries@)),
    {
        let len: usize = entries.len();
        self.entries = entries;
        self.loading = false;
        self.selected.clear();
        if self.cursor >= len {
            if len > 0 {
                self.cursor = len - 1;
            } else {
                self.cursor = 0;
            }
        }
        assert(self@ =~= old(self)@.with_entries(entries_view(entries@)));
    }

    /// The entries an action applies to, copied: the selected ones in
    /// increasing position, or the one under the cursor when nothing is
    /// selected.
    pub fn chosen_entries(&self) -> (r: Vec<FileEntry>)
        ensures
            entries_view(r@) == self@.chosen(),
    {
        broadcast use vstd::std_specs::hash::group_hash_axioms;

        let mut out: Vec<FileEntry> = Vec::new();
        if self.selected.is_empty() {
            if self.cursor < self.entries.len() {
                out.push(self.entries[self.cursor].duplicate());
            }
            assert(entries_view(out@) =~= self@.chosen());
            return out;
        }
        let ghost pred = |k: usize| self@.selected.contains(k);
        let ghost at = |k: usize| self@.entries[k as int];
        let mut k: usize = 0;
        while k < self.entries.len()
            invariant
                k <= self.entries.len(),
                pred == (|k: usize| self@.selected.contains(k)),
                at == (|k: usize| self@.entries[k as int]),
                entries_view(out@) =~= positions(self.entries.len() as nat).take(k as int).filter(pred).map_values(at),
            decreases self.entries.len() - k,
        {
            proof {
                lemma_positions_take_step(self.entries.len() as nat, k as int, pred);
            }
            let ghost before = out@;
            if self.selected.contains(&k) {
                out.push(self.entries[k].duplicate());
                assert(entries_view(out@) =~= entries_view(before).push(at(k)));
            }
            k = k + 1;
        }
        assert(positions(self.entries.len() as nat).take(self.entries.len() as int) =~= positions(
            self.entries.len() as nat,
        ));
        out
    }
}

proof fn lemma_positions_take_step(n: nat, i: int, pred: spec_fn(usize) -> bool)
    requires
        0 <= i < n,
        i < usize::MAX,
    ensures
        positions(n).take(i + 1).filter(pred) == if pred(i as usize) {
            positions(n).take(i).filter(pred).push(i as usize)
        } else {
            positions(n).take(i).filter(pred)
        },
{
    reveal(Seq::filter);
    assert(positions(n).take(i + 1).drop_last() =~= positions(n).take(i));
}

proof fn lemma_filter_keeps_members(s: Seq<usize>, pred: spec_fn(usize) -> bool)
    requires
        forall|i: int| 0 <= i < s.len() ==> #[trigger] pred(s[i]),
    ensures
        s.filter(pred) == s,
    decreases s.len(),
{
    reveal(Seq::filter);
    if s.len() > 0 {
        let r = s.drop_last();
        assert forall|i: int| 0 <= i < r.len() implies #[trigger] pred(r[i]) by {
            assert(r[i] == s[i]);
        }
        lemma_filter_keeps_members(r, pred);
        assert(pred(s[s.len() - 1]));
        assert(r.push(s.last()) =~= s);
    }
}

/// After every entry is selected, an action applies to all of them, in
/// order.
pub proof fn lemma_select_all_chooses_every_entry(p: PaneView)
    requires
        p.entries.len() <= usize::MAX,
    ensures
        p.all_selected().chosen() == p.entries,
{
    let q = p.all_selected();
    if p.entries.len() == 0 {
        assert(q.selected =~= Set::<usize>::empty());
        assert(q.chosen() =~= p.entries);
    } else {
        assert(q.selected.contains(0));
        lemma_filter_keeps_members(positions(p.entries.len()), |k: usize| q.selected.contains(k));
        assert(q.chosen() =~= p.entries);
    }
}

/// Without a filter every entry is shown, in order.
pub proof fn lemma_no_filter_shows_all(p: PaneView)
    requires
        p.filter is None,
    ensures
        p.filtered_positions() == positions(p.entries.len()),
{
    lemma_filter_keeps_members(
        positions(p.entries.len()),
        |k: usize| p.passes_filter(p.entries[k as int]),
    );
}

/// A listing that comes is shown sorted, directories first, and holds
/// exactly the entries listed; the pane is no longer loading.
pub proof fn lemma_listing_shown_sorted(
    s: AppView,
    pane: Pane,
    startup: bool,
    entries: Seq<EntryView>,
)
    ensures
        is_sorted(s.listed(pane, startup, Ok(entries)).0.pane_view(pane).entries),
        s.listed(pane, startup, Ok(entries)).0.pane_view(pane).entries.to_multiset()
            == entries.to_multiset(),
        !s.listed(pane, startup, Ok(entries)).0.pane_view(pane).loading,
{
    lemma_sorted_entries(entries);
}

/// The filter ignores case on both sides: an entry passes a filter exactly
/// when the lowercase form of its name contains the lowercase form of the
/// filter, so names, or filters, with the same lowercase form pass alike.
pub proof fn lemma_filter_ignores_case(p: PaneView, q: PaneView, e: EntryView, g: EntryView)
    requires
        p.filter is Some,
        q.filter is Some,
        lowercase_of(p.filter->0) == lowercase_of(q.filter->0),
        lowercase_of(e.name) == lowercase_of(g.name),
    ensures
        p.passes_filter(e) <==> seq_contains(lowercase_of(e.name), lowercase_of(p.filter->0)),
        p.passes_filter(e) == q.passes_filter(g),
{
}

/// Which entries a filter shows depends on the lowercase forms alone: two
/// panes whose names and filters have the same lowercase forms show the same
/// positions, and with no filter every position is shown.
pub proof fn lemma_filtered_positions_ignore_case(p: PaneView, q: PaneView)
    requires
        p.entries.len() == q.entries.len(),
        p.entries.len() <= usize::MAX,
        forall|k: int| 0 <= k < p.entries.len() ==> lowercase_of(#[trigger] p.entries[k].name) == lowercase_of(
            q.entries[k].name,
        ),
        p.filter is Some <==> q.filter is Some,
        p.filter is Some ==> lowercase_of(p.filter->0) == lowercase_of(q.filter->0),
    ensures
        p.filtered_positions() == q.filtered_positions(),
{
    let pp = |k: usize| p.passes_filter(p.entries[k as int]);
    let qp = |k: usize| q.passes_filter(q.entries[k as int]);
    let ps = positions(p.entries.len());
    assert forall|i: int| 0 <= i < ps.len() implies pp(#[trigger] ps[i]) == qp(ps[i]) by {
        assert(ps[i] as int == i);
        assert(lowercase_of(p.entries[i].name) == lowercase_of(q.entries[i].name));
    }
    lemma_filter_agrees(ps, pp, qp);
}

proof fn lemma_filter_agrees(s: Seq<usize>, a: spec_fn(usize) -> bool, b: spec_fn(usize) -> bool)
    requires
        forall|i: int| 0 <= i < s.len() ==> a(#[trigger] s[i]) == b(s[i]),
    ensures
        s.filter(a) == s.filter(b),
    decreases s.len(),
{
    reveal(Seq::filter);
    if s.len() > 0 {
        let d = s.drop_last();
        assert forall|i: int| 0 <= i < d.len() implies a(#[trigger] d[i]) == b(d[i]) by {
            assert(d[i] == s[i]);
        }
        lemma_filter_agrees(d, a, b);
        assert(a(s[s.len() - 1]) == b(s[s.len() - 1]));
    }
}

/// At start the ready devices (those in state `device`) decide: with none,
/// an error dialog and no serial taken; with exactly one, its serial is taken
/// and no dialog opens; with two or more, the serial stays as it was and a
/// picker lists exactly the ready devices, for the user to choose.
pub proof fn lemma_devices_found(s: AppView, devices: Seq<DeviceView>)
    ensures
        forall|k: int|
            0 <= k < ready_devices(devices).len() ==> (#[trigger] ready_devices(devices)[k]).state == "device"@
                && devices.contains(ready_devices(devices)[k]),
        forall|k: int|
            0 <= k < devices.len() && (#[trigger] devices[k]).state == "device"@ ==> ready_devices(
                devices,
            ).contains(devices[k]),
        ready_devices(devices).len() == 0 ==> s.devices_found(Ok(devices)).serial == s.serial
            && s.devices_found(Ok(devices)).modal is Some && s.devices_found(Ok(devices)).modal->0 is Error,
        ready_devices(devices).len() == 1 ==> s.devices_found(Ok(devices)).serial == Some(
            ready_devices(devices)[0].serial,
        ) && s.devices_found(Ok(devices)).modal == s.modal,
        ready_devices(devices).len() >= 2 ==> s.devices_found(Ok(devices)).serial == s.serial
            && s.devices_found(Ok(devices)).modal == Some(
            ModalView::DevicePicker { devices: ready_devices(devices) },
        ),
{
    let pred = |d: DeviceView| d.state == "device"@;
    assert forall|k: int| 0 <= k < ready_devices(devices).len() implies (#[trigger] ready_devices(
        devices,
    )[k]).state == "device"@ && devices.contains(ready_devices(devices)[k]) by {
        devices.lemma_filter_pred(pred, k);
        assert(devices.filter(pred).contains(devices.filter(pred)[k]));
        devices.lemma_filter_contains_rev(pred, devices.filter(pred)[k]);
    }
    assert forall|k: int| 0 <= k < devices.len() && (#[trigger] devices[k]).state == "device"@ implies ready_devices(
        devices,
    ).contains(devices[k]) by {
        devices.lemma_filter_contains(pred, k);
    }
}

/// Toggling position `i` selects it exactly when it was not selected, and
/// leaves every other position as it was.
pub proof fn lemma_toggle_flips(p: PaneView, i: usize, k: usize)
    ensures
        p.toggled(i).selected.contains(i) == !p.selected.contains(i),
        k != i ==> p.toggled(i).selected.contains(k) == p.selected.contains(k),
        p.toggled(i).entries == p.entries,
        p.toggled(i).cursor == p.cursor,
{
}

/// The cursor moves: up by one unless at the top, down by one unless at the
/// last entry; a page moves by `PAGE_SIZE`, stopping at the first and the
/// last entry. Nothing but the cursor changes.
pub proof fn lemma_cursor_moves(p: PaneView)
    requires
        p.entries.len() <= usize::MAX,
    ensures
        p.cursor > 0 ==> p.moved_up().cursor == p.cursor - 1,
        p.cursor == 0 ==> p.moved_up().cursor == 0,
        p.cursor + 1 < p.entries.len() ==> p.moved_down().cursor == p.cursor + 1,
        p.cursor + 1 >= p.entries.len() ==> p.moved_down().cursor == p.cursor,
        p.paged_up().cursor == if p.cursor >= PAGE_SIZE { p.cursor - PAGE_SIZE } else { 0 },
        p.entries.len() > 0 ==> p.paged_down().cursor == if p.cursor + PAGE_SIZE < p.entries.len() - 1 {
            p.cursor + PAGE_SIZE
        } else {
            p.entries.len() - 1
        },
        p.moved_up().entries == p.entries && p.moved_up().selected == p.selected,
        p.moved_down().entries == p.entries && p.moved_down().selected == p.selected,
        p.paged_up().entries == p.entries && p.paged_down().entries == p.entries,
{
}

/// Moving the cursor keeps it on an entry.
pub proof fn lemma_moves_stay_on_entries(p: PaneView)
    requires
        p.cursor < p.entries.len(),
    ensures
        p.moved_up().cursor < p.entries.len(),
        p.moved_down().cursor < p.entries.len(),
        p.paged_up().cursor < p.entries.len(),
        p.paged_down().cursor < p.entries.len(),
{
}

/// A new listing leaves the cursor on an entry whenever there is one.
pub proof fn lemma_listing_keeps_cursor_on_entries(p: PaneView, entries: Seq<EntryView>)
    ensures
        entries.len() > 0 ==> p.with_entries(entries).cursor < entries.len(),
        p.with_entries(entries).selected == Set::<usize>::empty(),
{
}

/// Switching panes twice comes back to the same pane.
pub proof fn lemma_switch_twice(s: AppView)
    ensures
        s.switched().switched() == s,
{
    assert(s.switched().switched() =~= s);
}

/// What an operation that has been handed out is for: what to do with its
/// outcome.
#[derive(Debug)]
pub enum Waiting {
    /// The search for devices at start.
    Devices,
    /// A listing of a pane; at start a failure is reported as such, and the
    /// local listing is followed by the device one when a device is known.
    /// With `transfers`, the next pending transfer starts after it.
    Listing { pane: Pane, startup: bool, transfers: bool },
    /// The listing of the device pane with `ls -la`.
    PlainListing { startup: bool, transfers: bool },
    /// A rename to `name`.
    Renamed { name: String },
    /// A new folder `name`.
    Created { name: String },
    /// The deletion of `name` in the directory `base`, with `rest` still to
    /// delete after it.
    Deleting { pane: Pane, base: String, name: String, rest: Vec<FileEntry> },
    /// The transfer of job `id` from `source`.
    Transfer { id: usize, source: String },
}

/// The plain values of a `Waiting`.
pub enum WaitView {
    Devices,
    Listing { pane: Pane, startup: bool, transfers: bool },
    PlainListing { startup: bool, transfers: bool },
    Renamed { name: Seq<char> },
    Created { name: Seq<char> },
    Deleting { pane: Pane, base: Seq<char>, name: Seq<char>, rest: Seq<EntryView> },
    Transfer { id: usize, source: Seq<char> },
}

impl View for Waiting {
    type V = WaitView;

    open spec fn view(&self) -> WaitView {
        match self {
            Waiting::Devices => WaitView::Devices,
            Waiting::Listing { pane, startup, transfers } => WaitView::Listing {
                pane: *pane,
                startup: *startup,
                transfers: *transfers,
            },
            Waiting::PlainListing { startup, transfers } => WaitView::PlainListing {
                startup: *startup,
                transfers: *transfers,
            },
            Waiting::Renamed { name } => WaitView::Renamed { name: name@ },
            Waiting::Created { name } => WaitView::Created { name: name@ },
            Waiting::Deleting { pane, base, name, rest } => WaitView::Deleting {
                pane: *pane,
                base: base@,
                name: name@,
                rest: entries_view(rest@),
            },
            Waiting::Transfer { id, source } => WaitView::Transfer { id: *id, source: source@ },
        }
    }
}

/// The plain values of an optional `Waiting`.
pub open spec fn waiting_view(w: Option<Waiting>) -> Option<WaitView> {
    match w {
        Some(x) => Some(x@),
        None => None,
    }
}

/// The whole state of the browser.
pub struct App {
    pub active_pane: Pane,
    pub local: PaneState,
    pub android: PaneState,
    pub adb: AdbClient,
    pub modal: Option<Modal>,
    pub input_mode: InputMode,
    pub should_quit: bool,
    pub status_message: String,
    pub filter_buffer: String,
    pub transfer_queue: TransferQueue,
    pub waiting: Option<Waiting>,
}

/// The plain values of an `App`; `serial` is the device the client talks to.
#[verifier::ext_equal]
pub struct AppView {
    pub active_pane: Pane,
    pub local: PaneView,
    pub android: PaneView,
    pub serial: Option<Seq<char>>,
    pub modal: Option<ModalView>,
    pub input_mode: InputMode,
    pub should_quit: bool,
    pub status: Seq<char>,
    pub filter_buffer: Seq<char>,
    pub queue: QueueView,
    pub waiting: Option<WaitView>,
}

/// The plain values of an optional dialog.
pub open spec fn modal_view(m: Option<Modal>) -> Option<ModalView> {
    match m {
        Some(x) => Some(x@),
        None => None,
    }
}

impl View for App {
    type V = AppView;

    open spec fn view(&self) -> AppView {
        AppView {
            active_pane: self.active_pane,
            local: self.local@,
            android: self.android@,
            serial: opt_view(self.adb.serial),
            modal: modal_view(self.modal),
            input_mode: self.input_mode,
            should_quit: self.should_quit,
            status: self.status_message@,
            filter_buffer: self.filter_buffer@,
            queue: self.transfer_queue@,
            waiting: waiting_view(self.waiting),
        }
    }
}

/// The status line shown when the program starts.
pub open spec fn welcome_text() -> Seq<char> {
    "adbrowse - press ? for help"@
}

/// The devices that are ready: adb reports their state as `device`.
pub open spec fn ready_devices(devices: Seq<DeviceView>) -> Seq<DeviceView> {
    devices.filter(|d: DeviceView| d.state == "device"@)
}

/// The dialog shown when no device is ready at start.
pub open spec fn no_device_text() -> Seq<char> {
    "No Android device connected. Connect a device and press R to retry."@
}

/// The message shown when a listing fails.
pub open spec fn listing_failed_text(pane: Pane, startup: bool, message: Seq<char>) -> Seq<char> {
    if startup {
        "Failed to load directories: "@ + message
    } else {
        match pane {
            Pane::Local => "Failed to list local dir: "@ + message,
            Pane::Android => "Failed to list Android dir: "@ + message,
        }
    }
}

impl AppView {
    /// Job ids are unique.
    pub open spec fn wf(self) -> bool {
        self.queue.wf()
    }

    /// In both panes the cursor is on an entry, or at the top of an empty
    /// pane.
    pub open spec fn cursors_on_entries(self) -> bool {
        self.local.cursor_on_entry() && self.android.cursor_on_entry()
    }

    /// The pane that keys act on.
    pub open spec fn active(self) -> PaneView {
        self.pane_view(self.active_pane)
    }

    /// The other pane, where copies go.
    pub open spec fn inactive(self) -> PaneView {
        match self.active_pane {
            Pane::Local => self.android,
            Pane::Android => self.local,
        }
    }

    /// One of the panes.
    pub open spec fn pane_view(self, pane: Pane) -> PaneView {
        match pane {
            Pane::Local => self.local,
            Pane::Android => self.android,
        }
    }

    /// The state with one pane replaced.
    pub open spec fn with_pane(self, pane: Pane, p: PaneView) -> AppView {
        match pane {
            Pane::Local => AppView { local: p, ..self },
            Pane::Android => AppView { android: p, ..self },
        }
    }

    /// The state with the active pane replaced.
    pub open spec fn with_active(self, p: PaneView) -> AppView {
        self.with_pane(self.active_pane, p)
    }

    pub open spec fn with_status(self, status: Seq<char>) -> AppView {
        AppView { status, ..self }
    }

    pub open spec fn with_modal(self, modal: Option<ModalView>) -> AppView {
        AppView { modal, ..self }
    }

    pub open spec fn with_waiting(self, waiting: Option<WaitView>) -> AppView {
        AppView { waiting, ..self }
    }

    /// The other pane made active.
    pub open spec fn switched(self) -> AppView {
        AppView {
            active_pane: match self.active_pane {
                Pane::Local => Pane::Android,
                Pane::Android => Pane::Local,
            },
            ..self
        }
    }

    /// A listing of the pane's directory is asked for: the pane shows that
    /// it is loading until the entries come.
    pub open spec fn listing_started(self, pane: Pane, startup: bool) -> (AppView, Option<OpView>) {
        self.listing_then(pane, startup, false)
    }

    /// A listing of the pane's directory is asked for; with `transfers`, the
    /// next pending transfer starts when it comes.
    pub open spec fn listing_then(self, pane: Pane, startup: bool, transfers: bool) -> (AppView, Option<OpView>) {
        let p = self.pane_view(pane);
        (
            self.with_pane(pane, PaneView { loading: true, ..p }).with_waiting(
                Some(WaitView::Listing { pane, startup, transfers }),
            ),
            Some(OpView::List { pane, path: p.path }),
        )
    }

    /// The active pane's directory is listed anew.
    pub open spec fn refreshed(self) -> (AppView, Option<OpView>) {
        self.listing_started(self.active_pane, false)
    }

    /// The active pane opened on the directory under the cursor, if it is one.
    pub open spec fn entered(self) -> (AppView, Option<OpView>) {
        match self.active().current() {
            Some(e) => if e.is_directory() {
                self.with_active(self.active().at_path(joined_path(self.active().path, e.name))).refreshed()
            } else {
                (self, None)
            },
            None => (self, None),
        }
    }

    /// The active pane opened on the parent directory, if there is one.
    pub open spec fn at_parent(self) -> (AppView, Option<OpView>) {
        match parent_path(self.active().path) {
            Some(p) => self.with_active(self.active().at_path(p)).refreshed(),
            None => (self, None),
        }
    }

    /// The listings at start: the local pane first, then the device pane
    /// when a device is known.
    pub open spec fn startup_listing(self) -> (AppView, Option<OpView>) {
        self.listing_started(Pane::Local, self.serial is Some)
    }

    /// The first step at start: with no serial given, ask for the devices;
    /// else list the panes.
    pub open spec fn started(self) -> (AppView, Option<OpView>) {
        if self.serial is Some {
            self.startup_listing()
        } else {
            (self.with_waiting(Some(WaitView::Devices)), Some(OpView::Devices))
        }
    }

    /// The state after the search for devices: one ready device is taken,
    /// several are offered in a picker, none or a failure is reported in an
    /// error dialog.
    pub open spec fn devices_found(self, found: Result<Seq<DeviceView>, Seq<char>>) -> AppView {
        match found {
            Ok(devices) => {
                let ready = ready_devices(devices);
                if ready.len() == 0 {
                    self.with_modal(Some(ModalView::Error { message: no_device_text() }))
                } else if ready.len() == 1 {
                    AppView { serial: Some(ready[0].serial), ..self }
                } else {
                    self.with_modal(Some(ModalView::DevicePicker { devices: ready }))
                }
            },
            Err(m) => self.with_modal(
                Some(ModalView::Error { message: "Failed to detect devices: "@ + m }),
            ),
        }
    }

    /// The state after a listing of `pane` came: its entries, sorted, or the
    /// failure in an error dialog. At start the device pane is listed after
    /// the local one.
    pub open spec fn listed(
        self,
        pane: Pane,
        startup: bool,
        result: Result<Seq<EntryView>, Seq<char>>,
    ) -> (AppView, Option<OpView>) {
        let p = self.pane_view(pane);
        match result {
            Ok(entries) => {
                let t = self.with_pane(pane, p.with_entries(sorted_entries(entries)));
                if startup && pane == Pane::Local {
                    t.listing_started(Pane::Android, true)
                } else {
                    (t, None)
                }
            },
            Err(m) => (
                self.with_pane(pane, PaneView { loading: false, ..p }).with_modal(
                    Some(ModalView::Error { message: listing_failed_text(pane, startup, m) }),
                ),
                None,
            ),
        }
    }
}

impl App {
    /// The state at start: the local pane active on `local_path`, the device
    /// pane on `/sdcard`, no dialog, an empty queue, nothing asked for.
    pub fn new(adb: AdbClient, local_path: String) -> (r: App)
        ensures
            r@.active_pane == Pane::Local,
            r@.local == PaneState::new_view(local_path@),
            r@.android == PaneState::new_view("/sdcard"@),
            r.adb == adb,
            r@.modal is None,
            r@.input_mode == InputMode::Normal,
            !r@.should_quit,
            r@.status == welcome_text(),
            r@.filter_buffer == Seq::<char>::empty(),
            r@.queue.jobs == Seq::<crate::transfer::JobView>::empty(),
            r@.queue.next_id == 0,
            r@.waiting is None,
            r@.wf(),
            r@.cursors_on_entries(),
    {
        let r = App {
            active_pane: Pane::Local,
            local: PaneState::new(local_path),
            android: PaneState::new(text("/sdcard")),
            adb,
            modal: None,
            input_mode: InputMode::Normal,
            should_quit: false,
            status_message: text("adbrowse - press ? for help"),
            filter_buffer: String::new(),
            transfer_queue: TransferQueue::new(),
            waiting: None,
        };
        assert(r@.local =~= PaneState::new_view(local_path@));
        assert(r@.android =~= PaneState::new_view("/sdcard"@));
        r
    }

    /// The pane that keys act on.
    pub fn active_pane(&self) -> (r: &PaneState)
        ensures
            r@ == self@.active(),
    {
        match self.active_pane {
            Pane::Local => &self.local,
            Pane::Android => &self.android,
        }
    }

    /// Makes the other pane active.
    pub fn switch_pane(&mut self)
        ensures
            final(self)@ == old(self)@.switched(),
    {
        self.active_pane = match self.active_pane {
            Pane::Local => Pane::Android,
            Pane::Android => Pane::Local,
        };
    }

    /// Shows an error dialog with this message.
    pub fn show_error(&mut self, message: String)
        ensures
            final(self)@ == old(self)@.with_modal(Some(ModalView::Error { message: message@ })),
    {
        self.modal = Some(Modal::Error { message });
    }

    /// Shows the help dialog.
    pub fn show_help(&mut self)
        ensures
            final(self)@ == old(self)@.with_modal(Some(ModalView::Help)),
    {
        self.modal = Some(Modal::Help);
    }

    /// Asks for a listing of a pane's directory and marks the pane loading.
    pub fn start_listing(&mut self, pane: Pane, startup: bool) -> (r: Op)
        ensures
            (final(self)@, Some(r@)) == old(self)@.listing_started(pane, startup),
    {
        self.start_listing_then(pane, startup, false)
    }

    /// Asks for a listing of a pane's directory, marks the pane loading, and
    /// with `transfers` has the next pending transfer start after it.
    pub fn start_listing_then(&mut self, pane: Pane, startup: bool, transfers: bool) -> (r: Op)
        ensures
            (final(self)@, Some(r@)) == old(self)@.listing_then(pane, startup, transfers),
    {
        let path = match pane {
            Pane::Local => {
                self.local.loading = true;
                copy_string(&self.local.path)
            },
            Pane::Android => {
                self.android.loading = true;
                copy_string(&self.android.path)
            },
        };
        self.waiting = Some(Waiting::Listing { pane, startup, transfers });
        Op::List { pane, path }
    }

    /// Asks for a new listing of the active pane.
    pub fn refresh_active_pane(&mut self) -> (r: Op)
        ensures
            (final(self)@, Some(r@)) == old(self)@.refreshed(),
    {
        let pane = self.active_pane;
        self.start_listing(pane, false)
    }

    /// Opens the directory under the cursor of the active pane.
    pub fn enter_directory(&mut self) -> (r: Option<Op>)
        ensures
            (final(self)@, op_view(r)) == old(self)@.entered(),
    {
        let target = match self.active_pane().current_entry() {
            Some(e) => if e.is_dir() {
                Some(path_join(self.active_pane().path.as_str(), e.name.as_str()))
            } else {
                None
            },
            None => None,
        };
        match target {
            Some(path) => {
                match self.active_pane {
                    Pane::Local => {
                        self.local.path = path;
                        self.local.cursor = 0;
                    },
                    Pane::Android => {
                        self.android.path = path;
                        self.android.cursor = 0;
                    },
                }
                Some(self.refresh_active_pane())
            },
            None => None,
        }
    }

    /// Opens the parent directory in the active pane.
    pub fn go_to_parent(&mut self) -> (r: Option<Op>)
        ensures
            (final(self)@, op_view(r)) == old(self)@.at_parent(),
    {
        match path_parent(self.active_pane().path.as_str()) {
            Some(path) => {
                match self.active_pane {
                    Pane::Local => {
                        self.local.path = path;
                        self.local.cursor = 0;
                    },
                    Pane::Android => {
                        self.android.path = path;
                        self.android.cursor = 0;
                    },
                }
                Some(self.refresh_active_pane())
            },
            None => None,
        }
    }

    /// The first step at start: with no serial given, asks for the devices;
    /// else asks for the listings.
    pub fn start(&mut self) -> (r: Option<Op>)
        ensures
            (final(self)@, op_view(r)) == old(self)@.started(),
    {
        if self.adb.serial.is_some() {
            Some(self.start_listing(Pane::Local, true))
        } else {
            self.waiting = Some(Waiting::Devices);
            Some(Op::Devices)
        }
    }

    /// Takes the devices found at start.
    pub fn take_devices(&mut self, found: Result<Vec<Device>, String>)
        ensures
            final(self)@ == old(self)@.devices_found(
                match found {
                    Ok(v) => Ok(devices_view(v@)),
                    Err(m) => Err(m@),
                },
            ),
    {
        match found {
            Ok(devices) => {
                let connected = ready_of(devices);
                if connected.len() == 0 {
                    self.modal = Some(Modal::Error {
                        message: text("No Android device connected. Connect a device and press R to retry."),
                    });
                } else if connected.len() == 1 {
                    self.adb.serial = Some(connected[0].serial.clone());
                } else {
                    self.modal = Some(Modal::DevicePicker { devices: connected });
                }
            },
            Err(m) => {
                let mut msg = text("Failed to detect devices: ");
                push_text(&mut msg, m.as_str());
                self.modal = Some(Modal::Error { message: msg });
            },
        }
    }

    /// Takes a listing of `pane`.
    pub fn take_listing(&mut self, pane: Pane, startup: bool, result: Result<Vec<FileEntry>, String>) -> (r: Option<Op>)
        requires
            old(self)@.wf(),
        ensures
            (final(self)@, op_view(r)) == old(self)@.listed(
                pane,
                startup,
                match result {
                    Ok(v) => Ok(entries_view(v@)),
                    Err(m) => Err(m@),
                },
            ),
            final(self)@.wf(),
    {
        match result {
            Ok(entries) => {
                let sorted = sort_entries(entries);
                match pane {
                    Pane::Local => self.local.set_entries(sorted),
                    Pane::Android => self.android.set_entries(sorted),
                }
                if startup && pane == Pane::Local {
                    Some(self.start_listing(Pane::Android, true))
                } else {
                    None
                }
            },
            Err(m) => {
                let mut msg = if startup {
                    text("Failed to load directories: ")
                } else {
                    match pane {
                        Pane::Local => text("Failed to list local dir: "),
                        Pane::Android => text("Failed to list Android dir: "),
                    }
                };
                push_text(&mut msg, m.as_str());
                match pane {
                    Pane::Local => self.local.loading = false,
                    Pane::Android => self.android.loading = false,
                }
                self.modal = Some(Modal::Error { message: msg });
                None
            },
        }
    }
}

/// The devices whose state is `device`, in order.
fn ready_of(devices: Vec<Device>) -> (r: Vec<Device>)
    ensures
        devices_view(r@) == ready_devices(devices_view(devices@)),
{
    let ghost pred = |d: DeviceView| d.state == "device"@;
    let mut out: Vec<Device> = Vec::new();
    let mut i: usize = 0;
    while i < devices.len()
        invariant
            i <= devices.len(),
            pred == (|d: DeviceView| d.state == "device"@),
            devices_view(out@) =~= devices_view(devices@).take(i as int).filter(pred),
        decreases devices.len() - i,
    {
        proof {
            reveal(Seq::filter);
            assert(devices_view(devices@).take(i + 1).drop_last() =~= devices_view(devices@).take(
                i as int,
            ));
        }
        let d = &devices[i];
        let ghost before = out@;
        if str_eq(d.state.as_str(), "device") {
            out.push(d.duplicate());
            assert(devices_view(out@) =~= devices_view(before).push(d@));
        }
        i = i + 1;
    }
    assert(devices_view(devices@).take(devices.len() as int) =~= devices_view(devices@));
    out
}

impl PaneState {
    /// The plain values of `PaneState::new(path)`.
    pub open spec fn new_view(path: Seq<char>) -> PaneView {
        PaneView {
            path,
            entries: Seq::empty(),
            selected: Set::empty(),
            cursor: 0,
            loading: false,
            filter: None,
        }
    }
}

} // verus!
