//! Directory entries, devices, the order in which entries are listed, and
//! human-readable sizes.
use std::cmp::Ordering;

use vstd::prelude::*;
use vstd::std_specs::cmp::PartialOrdSpecImpl;

use crate::app::entries_view;
use crate::text::{
    chars_less, chars_of, decimal, digit_char, lemma_seq_less_irreflexive,
    lemma_seq_less_transitive, lemma_seq_less_trichotomy, lowercase_of, push_char, push_decimal,
    seq_less, to_lower,
};

verus! {

/// What a directory entry is.
#[derive(Debug, Clone, Copy, PartialEq, Eq, Structural)]
pub enum FileKind {
    Directory,
    File,
    Symlink,
}

/// One entry of a directory listing.
#[derive(Debug, Clone, PartialEq, Eq)]
pub struct FileEntry {
    pub name: String,
    pub kind: FileKind,
    pub size: u64,
    pub modified: Option<String>,
}

/// The plain values of a `FileEntry`.
pub struct EntryView {
    pub name: Seq<char>,
    pub kind: FileKind,
    pub size: u64,
    pub modified: Option<Seq<char>>,
}

/// The characters of an optional string.
pub open spec fn opt_view(o: Option<String>) -> Option<Seq<char>> {
    match o {
        Some(s) => Some(s@),
        None => None,
    }
}

impl View for FileEntry {
    type V = EntryView;

    open spec fn view(&self) -> EntryView {
        EntryView { name: self.name@, kind: self.kind, size: self.size, modified: opt_view(self.modified) }
    }
}

impl EntryView {
    /// The entry is a directory (a symbolic link is not).
    pub open spec fn is_directory(self) -> bool {
        self.kind == FileKind::Directory
    }

    /// The key by which names are compared: the lowercase name.
    pub open spec fn sort_key(self) -> Seq<char> {
        lowercase_of(self.name)
    }
}

/// The order of two entries in a listing: directories before everything
/// else, then by lowercase name in code-point order.
pub open spec fn entry_order(a: EntryView, b: EntryView) -> Ordering {
    if a.is_directory() && !b.is_directory() {
        Ordering::Less
    } else if !a.is_directory() && b.is_directory() {
        Ordering::Greater
    } else if seq_less(a.sort_key(), b.sort_key()) {
        Ordering::Less
    } else if seq_less(b.sort_key(), a.sort_key()) {
        Ordering::Greater
    } else {
        Ordering::Equal
    }
}

/// Copies an optional string, character for character.
pub fn copy_opt_string(o: &Option<String>) -> (r: Option<String>)
    ensures
        opt_view(r) == opt_view(*o),
{
    match o {
        Some(s) => Some(s.clone()),
        None => None,
    }
}

impl FileEntry {
    /// Whether the entry is a directory.
    pub fn is_dir(&self) -> (r: bool)
        ensures
            r == self@.is_directory(),
    {
        match self.kind {
            FileKind::Directory => true,
            _ => false,
        }
    }

    /// A copy of the entry with the same values.
    pub fn duplicate(&self) -> (r: FileEntry)
        ensures
            r@ == self@,
    {
        FileEntry {
            name: self.name.clone(),
            kind: self.kind,
            size: self.size,
            modified: copy_opt_string(&self.modified),
        }
    }
}

impl PartialOrd for FileEntry {
    fn partial_cmp(&self, other: &Self) -> (r: Option<Ordering>) {
        let a_dir = self.is_dir();
        let b_dir = other.is_dir();
        if a_dir && !b_dir {
            return Some(Ordering::Less);
        }
        if !a_dir && b_dir {
            return Some(Ordering::Greater);
        }
        let a_key = to_lower(self.name.as_str());
        let b_key = to_lower(other.name.as_str());
        let a_chars = chars_of(a_key.as_str());
        let b_chars = chars_of(b_key.as_str());
        if chars_less(&a_chars, &b_chars) {
            Some(Ordering::Less)
        } else if chars_less(&b_chars, &a_chars) {
            Some(Ordering::Greater)
        } else {
            Some(Ordering::Equal)
        }
    }
}

impl PartialOrdSpecImpl for FileEntry {
    open spec fn obeys_partial_cmp_spec() -> bool {
        true
    }

    open spec fn partial_cmp_spec(&self, other: &Self) -> Option<Ordering> {
        Some(entry_order(self@, other@))
    }
}

/// Every directory is listed before every entry that is not a directory.
pub proof fn lemma_directories_first(d: EntryView, f: EntryView)
    requires
        d.is_directory(),
        !f.is_directory(),
    ensures
        entry_order(d, f) == Ordering::Less,
        entry_order(f, d) == Ordering::Greater,
{
}

/// Swapping the two entries reverses their order, and an entry is equal to
/// itself.
pub proof fn lemma_entry_order_antisymmetric(a: EntryView, b: EntryView)
    ensures
        entry_order(a, a) == Ordering::Equal,
        entry_order(a, b) == Ordering::Less <==> entry_order(b, a) == Ordering::Greater,
        entry_order(a, b) == Ordering::Equal <==> entry_order(b, a) == Ordering::Equal,
{
    lemma_seq_less_irreflexive(a.sort_key());
    lemma_seq_less_trichotomy(a.sort_key(), b.sort_key());
}

/// Names are compared by their lowercase forms: two entries that are both
/// directories, or both not, and whose names have the same lowercase form,
/// compare equal, whatever the case of their letters.
pub proof fn lemma_order_ignores_case(a: EntryView, b: EntryView)
    requires
        a.is_directory() == b.is_directory(),
        lowercase_of(a.name) == lowercase_of(b.name),
    ensures
        entry_order(a, b) == Ordering::Equal,
{
    lemma_seq_less_irreflexive(lowercase_of(a.name));
}

/// Two entries compare equal exactly when both or neither are directories
/// and their lowercase names are the same.
pub proof fn lemma_entry_order_equal(a: EntryView, b: EntryView)
    ensures
        entry_order(a, b) == Ordering::Equal <==> (a.is_directory() == b.is_directory()
            && a.sort_key() == b.sort_key()),
{
    lemma_seq_less_irreflexive(a.sort_key());
    lemma_seq_less_trichotomy(a.sort_key(), b.sort_key());
}

/// The order of entries is transitive.
pub proof fn lemma_entry_order_transitive(a: EntryView, b: EntryView, c: EntryView)
    requires
        entry_order(a, b) == Ordering::Less,
        entry_order(b, c) == Ordering::Less,
    ensures
        entry_order(a, c) == Ordering::Less,
{
    lemma_seq_less_trichotomy(a.sort_key(), b.sort_key());
    lemma_seq_less_trichotomy(b.sort_key(), c.sort_key());
    lemma_seq_less_trichotomy(a.sort_key(), c.sort_key());
    if a.is_directory() == b.is_directory() && b.is_directory() == c.is_directory() {
        lemma_seq_less_transitive(a.sort_key(), b.sort_key(), c.sort_key());
    }
}

/// `e` comes strictly before `x` in a listing.
pub open spec fn precedes(e: EntryView, x: EntryView) -> bool {
    entry_order(e, x) == Ordering::Less
}

/// No entry of the listing comes strictly before an earlier one.
pub open spec fn is_sorted(s: Seq<EntryView>) -> bool {
    forall|i: int, j: int| 0 <= i < j < s.len() ==> !precedes(#[trigger] s[j], #[trigger] s[i])
}

/// Where `e` goes in a sorted listing: before the first entry it precedes,
/// after all the others, so that equal entries keep their order.
pub open spec fn insert_position(s: Seq<EntryView>, e: EntryView) -> int
    decreases s.len(),
{
    if s.len() == 0 {
        0
    } else if precedes(e, s[0]) {
        0
    } else {
        1 + insert_position(s.drop_first(), e)
    }
}

/// The listing sorted by `entry_order`, each entry inserted in turn where
/// `insert_position` says; entries that compare equal keep their order.
pub open spec fn sorted_entries(s: Seq<EntryView>) -> Seq<EntryView>
    decreases s.len(),
{
    if s.len() == 0 {
        s
    } else {
        let t = sorted_entries(s.drop_last());
        t.insert(insert_position(t, s.last()), s.last())
    }
}

proof fn lemma_insert_position(s: Seq<EntryView>, e: EntryView)
    ensures
        0 <= insert_position(s, e) <= s.len(),
        forall|j: int| 0 <= j < insert_position(s, e) ==> !precedes(e, #[trigger] s[j]),
        insert_position(s, e) < s.len() ==> precedes(e, s[insert_position(s, e)]),
    decreases s.len(),
{
    if s.len() > 0 && !precedes(e, s[0]) {
        let r = s.drop_first();
        lemma_insert_position(r, e);
        assert forall|j: int| 0 <= j < insert_position(s, e) implies !precedes(e, #[trigger] s[j]) by {
            if j > 0 {
                assert(s[j] == r[j - 1]);
            }
        }
    }
}

/// The position is the only one before which `e` precedes nothing and at
/// which it precedes the entry.
proof fn lemma_insert_position_unique(s: Seq<EntryView>, e: EntryView, k: int)
    requires
        0 <= k <= s.len(),
        forall|j: int| 0 <= j < k ==> !precedes(e, #[trigger] s[j]),
        k < s.len() ==> precedes(e, s[k]),
    ensures
        insert_position(s, e) == k,
{
    lemma_insert_position(s, e);
    let p = insert_position(s, e);
    if p < k {
        assert(!precedes(e, s[p]));
    }
    if k < p {
        assert(!precedes(e, s[k]));
    }
}

/// Entry order through an entry that is equal or later.
proof fn lemma_precedes_through(a: EntryView, b: EntryView, c: EntryView)
    requires
        precedes(a, b),
        !precedes(c, b),
    ensures
        precedes(a, c),
{
    lemma_entry_order_antisymmetric(b, c);
    if entry_order(b, c) == Ordering::Equal {
        lemma_entry_order_equal(b, c);
    } else {
        lemma_entry_order_transitive(a, b, c);
    }
}

proof fn lemma_insert_keeps_sorted(s: Seq<EntryView>, e: EntryView)
    requires
        is_sorted(s),
    ensures
        is_sorted(s.insert(insert_position(s, e), e)),
{
    lemma_insert_position(s, e);
    let k = insert_position(s, e);
    let t = s.insert(k, e);
    assert forall|i: int, j: int| 0 <= i < j < t.len() implies !precedes(#[trigger] t[j], #[trigger] t[i]) by {
        if i < k && j == k {
            assert(!precedes(e, s[i]));
        } else if i == k && j > k {
            assert(t[j] == s[j - 1]);
            if k < s.len() {
                if j - 1 > k {
                    assert(!precedes(s[j - 1], s[k]));
                }
                lemma_entry_order_antisymmetric(e, s[k]);
                if precedes(s[j - 1], e) {
                    lemma_precedes_through(s[j - 1], e, s[k]);
                    lemma_entry_order_antisymmetric(s[j - 1], s[k]);
                }
            }
        } else if j < k {
            assert(!precedes(s[j], s[i]));
        } else if i < k && j > k {
            assert(!precedes(s[j - 1], s[i]));
        } else {
            assert(!precedes(s[j - 1], s[i - 1]));
        }
    }
}

/// A sorted listing is sorted and holds the same entries as the listing.
pub proof fn lemma_sorted_entries(s: Seq<EntryView>)
    ensures
        is_sorted(sorted_entries(s)),
        sorted_entries(s).to_multiset() == s.to_multiset(),
        sorted_entries(s).len() == s.len(),
    decreases s.len(),
{
    broadcast use vstd::seq_lib::group_to_multiset_ensures;

    if s.len() > 0 {
        let t = sorted_entries(s.drop_last());
        lemma_sorted_entries(s.drop_last());
        lemma_insert_keeps_sorted(t, s.last());
        lemma_insert_position(t, s.last());
        assert(s.drop_last().push(s.last()) =~= s);
    }
}

fn entry_precedes(a: &FileEntry, b: &FileEntry) -> (r: bool)
    ensures
        r == precedes(a@, b@),
{
    match a.partial_cmp(b) {
        Some(Ordering::Less) => true,
        _ => false,
    }
}

/// The entries sorted for a listing: directories first, then by lowercase
/// name; entries that compare equal keep their order.
pub fn sort_entries(v: Vec<FileEntry>) -> (r: Vec<FileEntry>)
    ensures
        entries_view(r@) == sorted_entries(entries_view(v@)),
{
    let ghost vs = entries_view(v@);
    let mut out: Vec<FileEntry> = Vec::new();
    let mut i: usize = 0;
    while i < v.len()
        invariant
            i <= v.len(),
            vs == entries_view(v@),
            entries_view(out@) == sorted_entries(vs.take(i as int)),
        decreases v.len() - i,
    {
        let e = v[i].duplicate();
        let mut k: usize = 0;
        while k < out.len() && !entry_precedes(&e, &out[k])
            invariant
                k <= out.len(),
                forall|j: int| 0 <= j < k ==> !precedes(e@, #[trigger] entries_view(out@)[j]),
            decreases out.len() - k,
        {
            k = k + 1;
        }
        proof {
            let t = entries_view(out@);
            lemma_insert_position_unique(t, e@, k as int);
            assert(vs.take(i + 1).drop_last() =~= vs.take(i as int));
            assert(vs.take(i + 1).last() == e@);
        }
        let ghost before = out@;
        out.insert(k, e);
        assert(entries_view(out@) =~= entries_view(before).insert(k as int, e@));
        i = i + 1;
    }
    assert(vs.take(v.len() as int) =~= vs);
    out
}

/// A device known to adb, with the state adb reports for it.
#[derive(Debug, Clone)]
pub struct Device {
    pub serial: String,
    pub state: String,
}

/// The plain values of a `Device`.
pub struct DeviceView {
    pub serial: Seq<char>,
    pub state: Seq<char>,
}

impl View for Device {
    type V = DeviceView;

    open spec fn view(&self) -> DeviceView {
        DeviceView { serial: self.serial@, state: self.state@ }
    }
}

impl Device {
    /// A copy of the device with the same values.
    pub fn duplicate(&self) -> (r: Device)
        ensures
            r@ == self@,
    {
        Device { serial: self.serial.clone(), state: self.state.clone() }
    }
}

/// Bytes in a kibibyte, a mebibyte and a gibibyte.
pub const KB: u64 = 1024;

pub const MB: u64 = 1048576;

pub const GB: u64 = 1073741824;

/// `n / d` rounded to the nearest integer, a tie going to the even one.
pub open spec fn div_round_half_even(n: nat, d: nat) -> nat
    recommends
        d > 0,
{
    let q: nat = n / d;
    let r: nat = n % d;
    if 2 * r > d || (2 * r == d && q % 2 == 1) {
        q + 1
    } else {
        q
    }
}

/// The spacing of the `f64` values near `n`: `1` below `2^53`, doubling
/// with every further bit of `n`.
pub open spec fn f64_spacing(n: nat) -> nat
    decreases n,
{
    if n < 0x20_0000_0000_0000 {
        1
    } else {
        2 * f64_spacing(n / 2)
    }
}

/// The value of `n as f64`: `n` rounded to the nearest multiple of the
/// spacing, a tie going to the even multiple.
pub open spec fn f64_value(n: nat) -> nat {
    div_round_half_even(n, f64_spacing(n)) * f64_spacing(n)
}

/// `v / unit` written with one decimal, rounded to the nearest tenth with a
/// tie going to the even tenth.
pub open spec fn one_decimal(v: nat, unit: nat) -> Seq<char> {
    let tenths: nat = div_round_half_even(10 * v, unit);
    decimal(tenths / 10).push('.').push(digit_char(tenths % 10))
}

/// The text `format_size` gives: below a kibibyte the number of bytes and
/// `B`; else the size in the largest unit that it reaches (`K`, `M`, `G`)
/// with one decimal, computed from the size as an `f64`.
pub open spec fn size_text(size: u64) -> Seq<char> {
    if size >= GB {
        one_decimal(f64_value(size as nat), GB as nat).push('G')
    } else if size >= MB {
        one_decimal(f64_value(size as nat), MB as nat).push('M')
    } else if size >= KB {
        one_decimal(f64_value(size as nat), KB as nat).push('K')
    } else {
        decimal(size as nat).push('B')
    }
}

/// The unit of a size's text follows the size: bytes below a kibibyte,
/// written out in full; then `K`, `M` and `G` from a kibibyte, a mebibyte
/// and a gibibyte on.
pub proof fn lemma_size_units(size: u64)
    ensures
        size < 1024 ==> size_text(size) == decimal(size as nat).push('B'),
        1024 <= size < 1048576 ==> size_text(size).last() == 'K',
        1048576 <= size < 1073741824 ==> size_text(size).last() == 'M',
        1073741824 <= size ==> size_text(size).last() == 'G',
{
}

proof fn lemma_spacing_bounds(n: nat)
    ensures
        1 <= f64_spacing(n),
        n >= 1 ==> f64_spacing(n) <= n,
        n < 0x20_0000_0000_0000 ==> f64_spacing(n) == 1,
    decreases n,
{
    if n >= 0x20_0000_0000_0000 {
        lemma_spacing_bounds(n / 2);
    }
}

fn spacing_of(n: u128) -> (r: u128)
    requires
        n < 0x1_0000_0000_0000_0000,
    ensures
        r == f64_spacing(n as nat),
        1 <= r,
        n >= 1 ==> r <= n,
    decreases n,
{
    proof {
        lemma_spacing_bounds(n as nat);
    }
    if n < 0x20_0000_0000_0000 {
        1
    } else {
        let h: u128 = spacing_of(n / 2);
        proof {
            lemma_spacing_bounds((n / 2) as nat);
        }
        2 * h
    }
}

fn round_half_even(n: u128, d: u128) -> (r: u128)
    requires
        d > 0,
        n + d < 0x1_0000_0000_0000_0000_0000_0000_0000_0000,
    ensures
        r == div_round_half_even(n as nat, d as nat),
        r * d <= n + d,
{
    let q: u128 = n / d;
    let rem: u128 = n % d;
    proof {
        assert(q * d + rem == n) by (nonlinear_arith)
            requires
                q == n / d,
                rem == n % d,
                d > 0,
        ;
    }
    if 2 * rem > d || (2 * rem == d && q % 2 == 1) {
        proof {
            assert((q + 1) * d == q * d + d) by (nonlinear_arith);
        }
        q + 1
    } else {
        q
    }
}

fn push_one_decimal(s: &mut String, v: u128, unit: u128)
    requires
        unit > 0,
        v <= 0x2_0000_0000_0000_0000,
        unit <= 0x1_0000_0000_0000_0000,
    ensures
        final(s)@ == old(s)@ + one_decimal(v as nat, unit as nat),
{
    let tenths: u128 = round_half_even(10 * v, unit);
    push_decimal(s, tenths / 10);
    push_char(s, '.');
    let last: u128 = tenths % 10;
    push_decimal(s, last);
    proof {
        assert(decimal(last as nat) =~= seq![digit_char(last as nat)]);
    }
}

/// A size in bytes as short text: `500B`, `1.0K`, `1.5M`, `2.0G`.
pub fn format_size(size: u64) -> (r: String)
    ensures
        r@ == size_text(size),
{
    let mut out = String::new();
    let n: u128 = size as u128;
    let spacing: u128 = spacing_of(n);
    let value: u128 = round_half_even(n, spacing) * spacing;
    proof {
        assert(value <= n + spacing);
    }
    if size >= GB {
        push_one_decimal(&mut out, value, GB as u128);
        push_char(&mut out, 'G');
    } else if size >= MB {
        push_one_decimal(&mut out, value, MB as u128);
        push_char(&mut out, 'M');
    } else if size >= KB {
        push_one_decimal(&mut out, value, KB as u128);
        push_char(&mut out, 'K');
    } else {
        push_decimal(&mut out, n);
        push_char(&mut out, 'B');
    }
    out
}

} // verus!
