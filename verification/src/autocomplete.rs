//! Completion of `/commands` typed into the input line.
use vstd::prelude::*;

use crate::text::{chars_of, chars_starts_with};

verus! {

/// A `/command` and its one-line description.
pub struct SlashCommand {
    pub name: &'static str,
    pub desc: &'static str,
}

/// How many `/commands` there are.
pub const COMMAND_COUNT: usize = 5;

/// Name of the `i`-th `/command`.
pub open spec fn command_name_spec(i: int) -> Seq<char> {
    if i == 0 {
        "/clear"@
    } else if i == 1 {
        "/new"@
    } else if i == 2 {
        "/help"@
    } else if i == 3 {
        "/model"@
    } else {
        "/mode"@
    }
}

/// Description of the `i`-th `/command`.
pub open spec fn command_desc_spec(i: int) -> Seq<char> {
    if i == 0 {
        "Clear conversation"@
    } else if i == 1 {
        "Clear conversation"@
    } else if i == 2 {
        "Show help"@
    } else if i == 3 {
        "Switch Ollama model"@
    } else {
        "Cycle mode: plan → thorough → oneshot"@
    }
}

/// The `i`-th `/command`.
pub fn command(i: usize) -> (c: SlashCommand)
    requires
        i < COMMAND_COUNT,
    ensures
        c.name@ == command_name_spec(i as int),
        c.desc@ == command_desc_spec(i as int),
{
    if i == 0 {
        SlashCommand { name: "/clear", desc: "Clear conversation" }
    } else if i == 1 {
        SlashCommand { name: "/new", desc: "Clear conversation" }
    } else if i == 2 {
        SlashCommand { name: "/help", desc: "Show help" }
    } else if i == 3 {
        SlashCommand { name: "/model", desc: "Switch Ollama model" }
    } else {
        SlashCommand { name: "/mode", desc: "Cycle mode: plan → thorough → oneshot" }
    }
}

/// All `/commands`, in menu order.
pub fn commands() -> (v: Vec<SlashCommand>)
    ensures
        v@.len() == COMMAND_COUNT,
        forall|i: int|
            0 <= i < COMMAND_COUNT ==> (#[trigger] v@[i]).name@ == command_name_spec(i)
                && v@[i].desc@ == command_desc_spec(i),
{
    let mut v: Vec<SlashCommand> = Vec::new();
    for i in 0..COMMAND_COUNT
        invariant
            v@.len() == i,
            forall|j: int|
                0 <= j < i ==> (#[trigger] v@[j]).name@ == command_name_spec(j) && v@[j].desc@
                    == command_desc_spec(j),
    {
        v.push(command(i));
    }
    v
}

/// Indices below `k` of the commands whose name starts with `prefix`, ascending.
pub open spec fn matching_commands(prefix: Seq<char>, k: nat) -> Seq<usize>
    decreases k,
{
    if k == 0 {
        Seq::empty()
    } else {
        let p = matching_commands(prefix, (k - 1) as nat);
        let name = command_name_spec(k - 1);
        if prefix.len() <= name.len() && name.take(prefix.len() as int) == prefix {
            p.push((k - 1) as usize)
        } else {
            p
        }
    }
}

proof fn lemma_matching_bounds(prefix: Seq<char>, k: nat)
    ensures
        matching_commands(prefix, k).len() <= k,
        forall|j: int|
            0 <= j < matching_commands(prefix, k).len() ==> (#[trigger] matching_commands(
                prefix,
                k,
            )[j]) < k,
    decreases k,
{
    if k > 0 {
        lemma_matching_bounds(prefix, (k - 1) as nat);
    }
}

/// The open completion menu: indices into the command list that match the
/// typed prefix, and which of them is highlighted.
pub struct Autocomplete {
    pub filtered: Vec<usize>,
    pub selected: usize,
}

impl Autocomplete {
    /// The menu listing every command, first one highlighted.
    pub fn open() -> (r: Self)
        ensures
            r.filtered@ == matching_commands(Seq::empty(), COMMAND_COUNT as nat),
            r.filtered@ == seq![0usize, 1, 2, 3, 4],
            r.selected == 0,
    {
        let mut f: Vec<usize> = Vec::new();
        for i in 0..COMMAND_COUNT
            invariant
                f@ == Seq::new(i as nat, |j: int| j as usize),
        {
            f.push(i);
            assert(f@ =~= Seq::new((i + 1) as nat, |j: int| j as usize));
        }
        proof {
            reveal_with_fuel(matching_commands, 6);
            assert(Seq::<char>::empty().len() == 0);
            assert(forall|k: int| 0 <= k < 5 ==> #[trigger] command_name_spec(k).take(0)
                =~= Seq::<char>::empty());
            assert(f@ =~= seq![0usize, 1, 2, 3, 4]);
            assert(matching_commands(Seq::empty(), 5) =~= seq![0usize, 1, 2, 3, 4]);
        }
        Autocomplete { filtered: f, selected: 0 }
    }

    /// Keeps the commands whose name starts with `prefix`; the highlight moves
    /// to the last entry if it fell off the end.
    pub fn filter(&mut self, prefix: &str)
        ensures
            final(self).filtered@ == matching_commands(prefix@, COMMAND_COUNT as nat),
            forall|j: int|
                0 <= j < final(self).filtered@.len() ==> #[trigger] final(self).filtered@[j]
                    < COMMAND_COUNT,
            final(self).selected == if old(self).selected >= final(self).filtered@.len() {
                if final(self).filtered@.len() == 0 {
                    0
                } else {
                    (final(self).filtered@.len() - 1) as usize
                }
            } else {
                old(self).selected
            },
    {
        let p = chars_of(prefix);
        let mut f: Vec<usize> = Vec::new();
        for i in 0..COMMAND_COUNT
            invariant
                p@ == prefix@,
                f@ == matching_commands(prefix@, i as nat),
        {
            let name = chars_of(command(i).name);
            if chars_starts_with(&name, &p) {
                f.push(i);
            }
        }
        proof {
            lemma_matching_bounds(prefix@, COMMAND_COUNT as nat);
        }
        self.filtered = f;
        if self.selected >= self.filtered.len() {
            self.selected = if self.filtered.len() == 0 {
                0
            } else {
                self.filtered.len() - 1
            };
        }
    }

    pub fn move_up(&mut self)
        ensures
            final(self).filtered == old(self).filtered,
            final(self).selected == if old(self).selected == 0 {
                0
            } else {
                (old(self).selected - 1) as usize
            },
    {
        if self.selected > 0 {
            self.selected -= 1;
        }
    }

    pub fn move_down(&mut self)
        ensures
            final(self).filtered == old(self).filtered,
            final(self).selected == if old(self).selected + 1 < old(self).filtered@.len() {
                (old(self).selected + 1) as usize
            } else {
                old(self).selected
            },
    {
        if self.selected < self.filtered.len() && self.selected + 1 < self.filtered.len() {
            self.selected += 1;
        }
    }

    /// Name of the highlighted command, if the menu has one.
    pub fn selected_command(&self) -> (r: Option<&'static str>)
        requires
            forall|j: int|
                0 <= j < self.filtered@.len() ==> #[trigger] self.filtered@[j] < COMMAND_COUNT,
        ensures
            self.selected < self.filtered@.len() ==> (r matches Some(s) && s@ == command_name_spec(
                self.filtered@[self.selected as int] as int,
            )),
            self.selected >= self.filtered@.len() ==> r is None,
    {
        if self.selected < self.filtered.len() {
            Some(command(self.filtered[self.selected]).name)
        } else {
            None
        }
    }

    pub fn is_empty(&self) -> (r: bool)
        ensures
            r == (self.filtered@.len() == 0),
    {
        self.filtered.len() == 0
    }
}

} // verus!
