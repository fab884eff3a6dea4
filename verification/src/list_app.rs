//! A minimal list browser: a title, three items and a cursor.
use vstd::prelude::*;

use crate::event::{KeyCode, KeyEvent};
use crate::text::text;

verus! {

/// The state of the list browser.
pub struct App {
    pub title: String,
    pub should_quit: bool,
    pub cursor_index: usize,
    pub items: Vec<String>,
}

/// A key of the list browser: `q` and `Esc` quit, `Down`/`j` and `Up`/`k`
/// move the cursor within the items.
pub open spec fn list_key_step(cursor: usize, n_items: nat, code: KeyCode) -> (bool, usize) {
    match code {
        KeyCode::Esc => (true, cursor),
        KeyCode::Char(c) => if c == 'q' {
            (true, cursor)
        } else if c == 'j' {
            (false, moved_down(cursor, n_items))
        } else if c == 'k' {
            (false, if cursor > 0 { (cursor - 1) as usize } else { 0 })
        } else {
            (false, cursor)
        },
        KeyCode::Down => (false, moved_down(cursor, n_items)),
        KeyCode::Up => (false, if cursor > 0 { (cursor - 1) as usize } else { 0 }),
        _ => (false, cursor),
    }
}

/// The cursor one item down, staying on the last item; in an empty list it
/// stays where it is.
pub open spec fn moved_down(cursor: usize, n_items: nat) -> usize {
    if n_items == 0 {
        cursor
    } else if cursor + 1 < n_items - 1 {
        (cursor + 1) as usize
    } else {
        (n_items - 1) as usize
    }
}

/// Down moves the cursor to the next item, or keeps it on the last one; in
/// an empty list it stays where it is.
pub proof fn lemma_list_down(cursor: usize, n_items: nat)
    requires
        n_items <= usize::MAX,
    ensures
        n_items > 0 && cursor + 1 < n_items ==> moved_down(cursor, n_items) == cursor + 1,
        n_items > 0 && cursor + 1 >= n_items ==> moved_down(cursor, n_items) == n_items - 1,
        n_items == 0 ==> moved_down(cursor, n_items) == cursor,
{
}

impl App {
    /// A browser with this title over `Item 1`, `Item 2`, `Item 3`.
    pub fn new(title: &str) -> (r: App)
        ensures
            r.title@ == title@,
            !r.should_quit,
            r.cursor_index == 0,
            r.items@.map_values(|s: String| s@) == seq!["Item 1"@, "Item 2"@, "Item 3"@],
    {
        let mut items: Vec<String> = Vec::new();
        items.push(text("Item 1"));
        items.push(text("Item 2"));
        items.push(text("Item 3"));
        let r = App { title: text(title), should_quit: false, cursor_index: 0, items };
        assert(r.items@.map_values(|s: String| s@) =~= seq!["Item 1"@, "Item 2"@, "Item 3"@]);
        r
    }

    /// Handles a key; returns whether the browser quits.
    pub fn handle_key_event(&mut self, key: KeyEvent) -> (r: bool)
        ensures
            ({
                let (quit, cursor) = list_key_step(old(self).cursor_index, old(self).items.len() as nat, key.code);
                &&& r == quit
                &&& final(self).cursor_index == cursor
                &&& final(self).should_quit == (old(self).should_quit || quit)
            }),
            final(self).title == old(self).title,
            final(self).items == old(self).items,
    {
        match key.code {
            KeyCode::Char('q') | KeyCode::Esc => {
                self.should_quit = true;
                true
            },
            KeyCode::Down | KeyCode::Char('j') => {
                let len: usize = self.items.len();
                if len > 0 {
                    let last: usize = len - 1;
                    self.cursor_index = if self.cursor_index < last && self.cursor_index + 1 < last {
                        self.cursor_index + 1
                    } else {
                        last
                    };
                }
                false
            },
            KeyCode::Up | KeyCode::Char('k') => {
                self.cursor_index = if self.cursor_index > 0 { self.cursor_index - 1 } else { 0 };
                false
            },
            _ => false,
        }
    }

    /// Periodic work: there is none.
    pub fn tick(&self) {
    }
}

} // verus!
