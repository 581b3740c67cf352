use vstd::prelude::*;
use vstd::arithmetic::div_mod::{
    lemma_fundamental_div_mod, lemma_fundamental_div_mod_converse, lemma_mod_bound,
};
use crate::menu_text::{draws, Color, EntryModel, MenuText, Position, TextDraw};

verus! {

/// Vertical gap, in pixels, added to an entry's size when entries are stacked.
pub const MARGIN: u32 = 32;

/// The input a menu reacts to: move the selection down, move it up, or
/// anything else (ignored).
#[derive(Clone, Copy, PartialEq, Eq, Structural, Debug)]
pub enum NavEvent {
    Down,
    Up,
    Other,
}

/// The cursor after one event on a menu of `n` entries. Down wraps from the
/// last entry to the first, up from the first to the last; on an empty menu,
/// and for any other event, the cursor stays.
pub open spec fn step(sel: nat, n: nat, ev: NavEvent) -> nat {
    if n == 0 {
        sel
    } else {
        match ev {
            NavEvent::Down => if sel + 1 < n { (sel + 1) as nat } else { 0 },
            NavEvent::Up => if sel > 0 { (sel - 1) as nat } else { (n - 1) as nat },
            NavEvent::Other => sel,
        }
    }
}

/// The cursor after the same event `k` times.
pub open spec fn repeat(sel: nat, n: nat, ev: NavEvent, k: nat) -> nat
    decreases k,
{
    if k == 0 {
        sel
    } else {
        step(repeat(sel, n, ev, (k - 1) as nat), n, ev)
    }
}

/// The cursor after the events of `evs`, first to last.
pub open spec fn run(sel: nat, n: nat, evs: Seq<NavEvent>) -> nat
    decreases evs.len(),
{
    if evs.len() == 0 {
        sel
    } else {
        step(run(sel, n, evs.drop_last()), n, evs.last())
    }
}

/// Where the next stacked entry goes: at the origin in an empty menu; else
/// in the first entry's column, `(s + MARGIN) * k` below the first entry,
/// where `s` is the size of the entry before it and `k` its index.
pub open spec fn stacked_x(entries: Seq<EntryModel>) -> int {
    if entries.len() == 0 {
        0
    } else {
        entries[0].position.x as int
    }
}

pub open spec fn stacked_y(entries: Seq<EntryModel>) -> int {
    if entries.len() == 0 {
        0
    } else {
        entries[0].position.y + (entries.last().size + MARGIN) * entries.len()
    }
}

/// The next stacked position is a valid screen position.
pub open spec fn stacked_fits(entries: Seq<EntryModel>) -> bool {
    i32::MIN <= stacked_y(entries) <= i32::MAX
}

/// A vertical menu: entries in display order, the selected entry's index,
/// and the base position that every entry's offset is taken from.
pub struct Menu {
    options: Vec<MenuText>,
    curr_option: usize,
    base: Position,
}

impl Menu {
    pub closed spec fn entries(&self) -> Seq<EntryModel> {
        self.options@.map_values(|e: MenuText| e@)
    }

    pub closed spec fn selected(&self) -> nat {
        self.curr_option as nat
    }

    pub closed spec fn base(&self) -> Position {
        self.base
    }

    /// The cursor names an entry, or is 0 in an empty menu.
    pub open spec fn wf(&self) -> bool {
        if self.entries().len() == 0 {
            self.selected() == 0
        } else {
            self.selected() < self.entries().len()
        }
    }

    /// An empty menu at the origin.
    pub fn new() -> (m: Menu)
        ensures
            m.wf(),
            m.entries() == Seq::<EntryModel>::empty(),
            m.selected() == 0,
            m.base() == (Position { x: 0, y: 0 }),
    {
        Menu::at(Position::new(0, 0))
    }

    /// An empty menu whose entries are placed relative to `base`.
    pub fn at(base: Position) -> (m: Menu)
        ensures
            m.wf(),
            m.entries() == Seq::<EntryModel>::empty(),
            m.selected() == 0,
            m.base() == base,
    {
        let m = Menu { options: Vec::new(), curr_option: 0, base };
        assert(m.entries() =~= Seq::<EntryModel>::empty());
        m
    }

    pub fn selected_index(&self) -> (r: usize)
        ensures
            r == self.selected(),
    {
        self.curr_option
    }

    pub fn len(&self) -> (r: usize)
        ensures
            r == self.entries().len(),
    {
        self.options.len()
    }

    fn push_entry(&mut self, entry: MenuText)
        requires
            old(self).wf(),
        ensures
            final(self).wf(),
            final(self).entries() == old(self).entries().push(entry@),
            final(self).selected() == old(self).selected(),
            final(self).base() == old(self).base(),
    {
        self.options.push(entry);
        assert(self.entries() =~= old(self).entries().push(entry@));
    }

    /// Appends an entry at the given offset from the menu's base position.
    pub fn add_text(
        &mut self,
        caption: String,
        font: String,
        size: u32,
        position: Position,
        text_color: Color,
    )
        requires
            old(self).wf(),
        ensures
            final(self).wf(),
            final(self).entries() == old(self).entries().push(
                EntryModel { caption: caption@, font: font@, size, position, color: text_color },
            ),
            final(self).selected() == old(self).selected(),
            final(self).base() == old(self).base(),
    {
        self.push_entry(MenuText::with_params(caption, font, size, position, text_color));
    }

    /// The position that `add_stacked` would give the next entry, or `None`
    /// where it lies outside the screen coordinate range.
    pub fn stacked_position(&self) -> (r: Option<Position>)
        requires
            self.wf(),
        ensures
            r is Some <==> stacked_fits(self.entries()),
            r matches Some(p) ==> p.x == stacked_x(self.entries()) && p.y == stacked_y(
                self.entries(),
            ),
    {
        let n = self.options.len();
        if n == 0 {
            return Some(Position::new(0, 0));
        }
        let first = self.options[0].get_position();
        let last_size = *self.options[n - 1].get_size();
        proof {
            assert(self.entries()[0] == self.options@[0]@);
            assert(self.entries().last() == self.options@[n - 1]@);
        }
        let step: i128 = last_size as i128 + MARGIN as i128;
        assert(0 <= step * (n as i128) <= 0x1_0000_0020 * 0x1_0000_0000_0000_0000) by (nonlinear_arith)
            requires
                0 <= step <= 0x1_0000_0020,
                0 <= n <= 0xffff_ffff_ffff_ffff,
        ;
        let y: i128 = first.y as i128 + step * (n as i128);
        if y < i32::MIN as i128 || y > i32::MAX as i128 {
            None
        } else {
            Some(Position::new(first.x, y as i32))
        }
    }

    /// Appends an entry stacked below the others (see `stacked_x`, `stacked_y`).
    pub fn add_stacked(&mut self, caption: String, font: String, size: u32, text_color: Color)
        requires
            old(self).wf(),
            stacked_fits(old(self).entries()),
        ensures
            final(self).wf(),
            final(self).entries() == old(self).entries().push(
                EntryModel {
                    caption: caption@,
                    font: font@,
                    size,
                    position: Position {
                        x: stacked_x(old(self).entries()) as i32,
                        y: stacked_y(old(self).entries()) as i32,
                    },
                    color: text_color,
                },
            ),
            final(self).selected() == old(self).selected(),
            final(self).base() == old(self).base(),
    {
        let p = self.stacked_position();
        match p {
            Some(position) => {
                self.add_text(caption, font, size, position, text_color);
            },
            None => {},
        }
    }

    /// Moves the cursor: down and up wrap around, other events and an empty
    /// menu leave it where it is.
    pub fn event(&mut self, event: NavEvent)
        requires
            old(self).wf(),
        ensures
            final(self).wf(),
            final(self).selected() == step(old(self).selected(), old(self).entries().len(), event),
            final(self).entries() == old(self).entries(),
            final(self).base() == old(self).base(),
    {
        let n = self.options.len();
        if n == 0 {
            return;
        }
        match event {
            NavEvent::Down => {
                if self.curr_option < n - 1 {
                    self.curr_option = self.curr_option + 1;
                } else {
                    self.curr_option = 0;
                }
            },
            NavEvent::Up => {
                if self.curr_option > 0 {
                    self.curr_option = self.curr_option - 1;
                } else {
                    self.curr_option = n - 1;
                }
            },
            NavEvent::Other => {},
        }
    }

    /// The frame's draws, one per entry in display order: each at its offset
    /// from the base position, underlined exactly when it is selected.
    pub fn draw(&self) -> (r: Vec<TextDraw>)
        requires
            self.wf(),
        ensures
            r@.len() == self.entries().len(),
            forall|i: int|
                0 <= i < r@.len() ==> draws(
                    #[trigger] r@[i],
                    self.entries()[i],
                    self.base(),
                    i == self.selected(),
                ),
    {
        let mut r: Vec<TextDraw> = Vec::new();
        let mut i: usize = 0;
        while i < self.options.len()
            invariant
                i <= self.options@.len(),
                r@.len() == i,
                forall|j: int|
                    0 <= j < i ==> draws(
                        #[trigger] r@[j],
                        self.entries()[j],
                        self.base(),
                        j == self.selected(),
                    ),
            decreases self.options@.len() - i,
        {
            let d = self.options[i].draw(self.base, self.curr_option == i);
            r.push(d);
            i = i + 1;
        }
        r
    }
}

/// Going down as many times as there are entries brings the cursor back to
/// where it started.
pub proof fn lemma_down_cycles(n: nat, s: nat)
    requires
        s < n,
    ensures
        repeat(s, n, NavEvent::Down, n) == s,
{
    lemma_down_repeat(n, s, n);
    lemma_fundamental_div_mod_converse((s + n) as int, n as int, 1, s as int);
}

proof fn lemma_down_repeat(n: nat, s: nat, k: nat)
    requires
        s < n,
    ensures
        repeat(s, n, NavEvent::Down, k) == ((s + k) as int) % (n as int),
    decreases k,
{
    if k == 0 {
        lemma_fundamental_div_mod_converse(s as int, n as int, 0, s as int);
    } else {
        lemma_down_repeat(n, s, (k - 1) as nat);
        let a: int = s + k - 1;
        let q = a / (n as int);
        let r = a % (n as int);
        lemma_fundamental_div_mod(a, n as int);
        lemma_mod_bound(a, n as int);
        if r + 1 < n {
            lemma_fundamental_div_mod_converse(a + 1, n as int, q, r + 1);
        } else {
            assert((q + 1) * (n as int) == (n as int) * q + n) by (nonlinear_arith);
            lemma_fundamental_div_mod_converse(a + 1, n as int, q + 1, 0);
        }
    }
}

/// Going up as many times as there are entries brings the cursor back to
/// where it started.
pub proof fn lemma_up_cycles(n: nat, s: nat)
    requires
        s < n,
    ensures
        repeat(s, n, NavEvent::Up, n) == s,
{
    lemma_up_repeat(n, s, n);
    lemma_fundamental_div_mod_converse(s as int - n as int, n as int, -1, s as int);
}

proof fn lemma_up_repeat(n: nat, s: nat, k: nat)
    requires
        s < n,
    ensures
        repeat(s, n, NavEvent::Up, k) == (s as int - k as int) % (n as int),
    decreases k,
{
    if k == 0 {
        lemma_fundamental_div_mod_converse(s as int, n as int, 0, s as int);
    } else {
        lemma_up_repeat(n, s, (k - 1) as nat);
        let a: int = s - (k - 1);
        let q = a / (n as int);
        let r = a % (n as int);
        lemma_fundamental_div_mod(a, n as int);
        lemma_mod_bound(a, n as int);
        if r > 0 {
            lemma_fundamental_div_mod_converse(a - 1, n as int, q, r - 1);
        } else {
            assert((q - 1) * (n as int) == (n as int) * q - n) by (nonlinear_arith);
            lemma_fundamental_div_mod_converse(a - 1, n as int, q - 1, n - 1);
        }
    }
}

/// On a menu with entries, every sequence of events keeps a cursor that
/// names an entry on an entry.
pub proof fn lemma_run_in_range(n: nat, s: nat, evs: Seq<NavEvent>)
    requires
        s < n,
    ensures
        run(s, n, evs) < n,
    decreases evs.len(),
{
    if evs.len() > 0 {
        lemma_run_in_range(n, s, evs.drop_last());
    }
}

/// On an empty menu no sequence of events moves the cursor.
pub proof fn lemma_empty_run_stays(s: nat, evs: Seq<NavEvent>)
    ensures
        run(s, 0, evs) == s,
    decreases evs.len(),
{
    if evs.len() > 0 {
        lemma_empty_run_stays(s, evs.drop_last());
    }
}

} // verus!
