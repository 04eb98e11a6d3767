//! The console's command input: what is sent, and the history recalled with the arrow keys.

use vstd::prelude::*;
use crate::text;

verus! {

/// Most commands the history keeps.
pub const HISTORY_MAX: usize = 50;

/// Whether an input is sent to the server: it is not blank.
pub fn should_send(input: &str) -> (r: bool)
    ensures
        r == (text::trim_spec(input@).len() > 0),
{
    let c = text::chars_of(input);
    let t = text::trim(&c);
    t.len() > 0
}

/// Commands sent to the server, oldest first, and the position the arrow keys have reached
/// (the length of the list stands for the empty input after the newest command).
pub struct CommandHistory {
    entries: Vec<String>,
    pos: usize,
}

impl CommandHistory {
    /// The kept commands.
    pub closed spec fn entries_spec(&self) -> Seq<Seq<char>> {
        self.entries@.map_values(|s: String| s@)
    }

    /// The recall position.
    pub closed spec fn pos_spec(&self) -> nat {
        self.pos as nat
    }

    /// The position is within the list (or just after it), and the list is bounded.
    pub closed spec fn wf(&self) -> bool {
        self.pos <= self.entries@.len() <= HISTORY_MAX
    }

    /// An empty history.
    pub fn new() -> (r: CommandHistory)
        ensures
            r.wf(),
            r.entries_spec() == Seq::<Seq<char>>::empty(),
            r.pos_spec() == 0,
    {
        let r = CommandHistory { entries: Vec::new(), pos: 0 };
        assert(r.entries_spec() =~= Seq::<Seq<char>>::empty());
        r
    }

    /// Records a sent command: it becomes the newest, the oldest goes beyond fifty, and the
    /// recall position moves after the newest.
    pub fn record(&mut self, cmd: String)
        requires
            old(self).wf(),
        ensures
            final(self).wf(),
            final(self).entries_spec() == (if old(self).entries_spec().len() + 1 > HISTORY_MAX {
                old(self).entries_spec().push(cmd@).drop_first()
            } else {
                old(self).entries_spec().push(cmd@)
            }),
            final(self).pos_spec() == final(self).entries_spec().len(),
    {
        let ghost before = self.entries_spec();
        self.entries.push(cmd);
        assert(self.entries_spec() =~= before.push(cmd@));
        if self.entries.len() > HISTORY_MAX {
            let _ = self.entries.remove(0);
            assert(self.entries_spec() =~= before.push(cmd@).drop_first());
        }
        self.pos = self.entries.len();
    }

    /// The Up key: moves one command back (staying at the oldest) and gives it; nothing
    /// happens with an empty history.
    pub fn up(&mut self) -> (r: Option<String>)
        requires
            old(self).wf(),
        ensures
            final(self).wf(),
            final(self).entries_spec() == old(self).entries_spec(),
            old(self).entries_spec().len() == 0 ==> r is None && final(self).pos_spec() == old(self).pos_spec(),
            old(self).entries_spec().len() > 0 ==> {
                let p = if old(self).pos_spec() > 0 { (old(self).pos_spec() - 1) as nat } else { 0nat };
                &&& final(self).pos_spec() == p
                &&& r matches Some(s) && s@ == old(self).entries_spec()[p as int]
            },
    {
        if self.entries.len() == 0 {
            return None;
        }
        let p = if self.pos > 0 { self.pos - 1 } else { 0 };
        self.pos = p;
        let s = self.entries[p].clone();
        Some(s)
    }

    /// The Down key: moves one command forward and gives it; after the newest it gives the
    /// empty input. Nothing happens with an empty history.
    pub fn down(&mut self) -> (r: Option<String>)
        requires
            old(self).wf(),
        ensures
            final(self).wf(),
            final(self).entries_spec() == old(self).entries_spec(),
            old(self).entries_spec().len() == 0 ==> r is None && final(self).pos_spec() == old(self).pos_spec(),
            old(self).entries_spec().len() > 0 ==> if old(self).pos_spec() + 1 >= old(self).entries_spec().len() {
                &&& final(self).pos_spec() == old(self).entries_spec().len()
                &&& r matches Some(s) && s@ == Seq::<char>::empty()
            } else {
                &&& final(self).pos_spec() == old(self).pos_spec() + 1
                &&& r matches Some(s) && s@ == old(self).entries_spec()[old(self).pos_spec() as int + 1]
            },
    {
        if self.entries.len() == 0 {
            return None;
        }
        let p = self.pos + 1;
        if p >= self.entries.len() {
            self.pos = self.entries.len();
            Some(String::new())
        } else {
            self.pos = p;
            Some(self.entries[p].clone())
        }
    }
}

/// Recording a command and pressing Up recalls that command.
pub proof fn law_up_recalls_last(before: Seq<Seq<char>>, cmd: Seq<char>)
    requires
        before.len() <= HISTORY_MAX,
    ensures
        ({
            let after = if before.len() + 1 > HISTORY_MAX {
                before.push(cmd).drop_first()
            } else {
                before.push(cmd)
            };
            &&& after.len() > 0
            &&& after[after.len() - 1] == cmd
            &&& after.len() <= HISTORY_MAX
        }),
{
}

} // verus!
