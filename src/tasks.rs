//! Named commands that the shell can start as tasks.

use vstd::prelude::*;
use crate::synchronization::{Mutex, SpinLock};
use vstd::string::*;

verus! {

/// How many commands can be registered.
pub const NUM_CMDS: usize = 10;

/// A command: its name and the address of its entry function.
#[derive(Clone, Copy, Debug)]
pub struct Command {
    pub name: &'static str,
    pub entry: usize,
}

impl Command {
    pub fn new(name: &'static str, entry: usize) -> (r: Self)
        ensures
            r.name == name,
            r.entry == entry,
    {
        Command { name, entry }
    }
}

/// Where the first space of `b` is, or its length when it has none.
pub open spec fn first_space(b: Seq<u8>) -> int
    decreases b.len(),
{
    if b.len() == 0 {
        0
    } else if b[0] == 32 {
        0
    } else {
        1 + first_space(b.drop_first())
    }
}

/// The bytes of a command line up to its first space: the command's name.
pub open spec fn first_word(b: Seq<u8>) -> Seq<u8> {
    b.take(first_space(b))
}

proof fn lemma_first_space(b: Seq<u8>, i: int)
    requires
        0 <= i <= b.len(),
        forall|k: int| 0 <= k < i ==> b[k] != 32,
        i == b.len() || b[i] == 32,
    ensures
        first_space(b) == i,
    decreases b.len(),
{
    if b.len() > 0 && i > 0 {
        let d = b.drop_first();
        assert forall|k: int| 0 <= k < i - 1 implies d[k] != 32 by {
            assert(d[k] == b[k + 1]);
        }
        if i < b.len() {
            assert(d[i - 1] == b[i]);
        }
        lemma_first_space(d, i - 1);
    }
}

/// Whether the name `name` equals the first `len` bytes of `line`, and nothing
/// more.
fn name_matches(name: &[u8], line: &[u8], len: usize) -> (r: bool)
    requires
        len <= line@.len(),
    ensures
        r == (name@ == line@.take(len as int)),
{
    if name.len() != len {
        return false;
    }
    let mut k: usize = 0;
    while k < len
        invariant
            k <= len,
            len <= line@.len(),
            name@.len() == len,
            forall|j: int| 0 <= j < k ==> name@[j] == line@[j],
        decreases len - k,
    {
        if name[k] != line[k] {
            proof {
                assert(name@[k as int] != line@.take(len as int)[k as int]);
            }
            return false;
        }
        k = k + 1;
    }
    proof {
        assert(name@ =~= line@.take(len as int));
    }
    true
}

/// The registered commands, in registration order.
pub struct CommandListInner {
    pub next_idx: usize,
    pub cmds: Vec<Option<Command>>,
}

impl CommandListInner {
    pub open spec fn wf(&self) -> bool {
        &&& self.cmds@.len() == NUM_CMDS
        &&& self.next_idx <= NUM_CMDS
        &&& forall|i: int| 0 <= i < NUM_CMDS ==> ((#[trigger] self.cmds@[i]) is Some <==> i < self.next_idx)
    }

    /// The names of the registered commands, in order.
    pub open spec fn names(&self) -> Seq<&'static str> {
        Seq::new(self.next_idx as nat, |i: int| self.cmds@[i]->Some_0.name)
    }

    /// Index of the first registered command called `word`, if any.
    pub open spec fn lookup(&self, word: Seq<u8>) -> Option<int> {
        if exists|i: int| 0 <= i < self.next_idx && (#[trigger] self.cmds@[i])->Some_0.name.spec_bytes() == word
            && forall|j: int| 0 <= j < i ==> (#[trigger] self.cmds@[j])->Some_0.name.spec_bytes() != word {
            Some(choose|i: int| 0 <= i < self.next_idx && (#[trigger] self.cmds@[i])->Some_0.name.spec_bytes() == word
                && forall|j: int| 0 <= j < i ==> (#[trigger] self.cmds@[j])->Some_0.name.spec_bytes() != word)
        } else {
            None
        }
    }

    pub fn new() -> (r: Self)
        ensures
            r.wf(),
            r.next_idx == 0,
    {
        CommandListInner {
            next_idx: 0,
            cmds: vec![None, None, None, None, None, None, None, None, None, None],
        }
    }

    /// Whether every slot is taken.
    pub fn is_full(&self) -> (r: bool)
        ensures
            r == (self.next_idx >= NUM_CMDS),
    {
        self.next_idx >= NUM_CMDS
    }

    /// Registers a command in the next free slot.
    pub fn register_cmd(&mut self, name: &'static str, entry: usize)
        requires
            old(self).wf(),
            old(self).next_idx < NUM_CMDS,
        ensures
            final(self).wf(),
            final(self).next_idx == old(self).next_idx + 1,
            final(self).cmds@ == old(self).cmds@.update(old(self).next_idx as int, Some(Command { name, entry })),
    {
        let idx = self.next_idx;
        self.cmds.set(idx, Some(Command::new(name, entry)));
        self.next_idx = idx + 1;
    }

    /// The names of the registered commands, in order.
    pub fn print_cmds(&self) -> (r: Vec<&'static str>)
        requires
            self.wf(),
        ensures
            r@ == self.names(),
    {
        let mut names: Vec<&'static str> = Vec::new();
        let mut i: usize = 0;
        while i < self.next_idx
            invariant
                self.wf(),
                i <= self.next_idx,
                names@ == self.names().take(i as int),
            decreases self.next_idx - i,
        {
            match &self.cmds[i] {
                Some(cmd) => names.push(cmd.name),
                None => {},
            }
            i = i + 1;
            proof {
                assert(names@ =~= self.names().take(i as int));
            }
        }
        proof {
            assert(self.names().take(i as int) =~= self.names());
        }
        names
    }

    /// The command that a command line names: the first registered command
    /// whose name is the line's first word, if any.
    pub fn run_cmd(&self, cmd_with_args: &str) -> (r: Option<Command>)
        requires
            self.wf(),
        ensures
            match self.lookup(first_word(cmd_with_args.spec_bytes())) {
                Some(i) => r == self.cmds@[i],
                None => r is None,
            },
    {
        let line = cmd_with_args.as_bytes();
        let mut len: usize = 0;
        while len < line.len() && line[len] != 32
            invariant
                len <= line@.len(),
                forall|k: int| 0 <= k < len ==> line@[k] != 32,
            decreases line@.len() - len,
        {
            len = len + 1;
        }
        proof {
            lemma_first_space(line@, len as int);
        }
        let ghost word = first_word(cmd_with_args.spec_bytes());
        let mut i: usize = 0;
        while i < self.next_idx
            invariant
                self.wf(),
                i <= self.next_idx,
                len <= line@.len(),
                word == line@.take(len as int),
                word == first_word(cmd_with_args.spec_bytes()),
                forall|j: int| 0 <= j < i ==> (#[trigger] self.cmds@[j])->Some_0.name.spec_bytes() != word,
            decreases self.next_idx - i,
        {
            match &self.cmds[i] {
                Some(cmd) => {
                    if name_matches(cmd.name.as_bytes(), line, len) {
                        proof {
                            let ii = i as int;
                            assert(self.cmds@[ii]->Some_0.name.spec_bytes() == word);
                            assert(0 <= ii < self.next_idx && (#[trigger] self.cmds@[ii])->Some_0.name.spec_bytes() == word
                                && forall|j: int| 0 <= j < ii ==> (#[trigger] self.cmds@[j])->Some_0.name.spec_bytes() != word);
                            let l = self.lookup(word);
                            assert(l is Some);
                            let c = l->Some_0;
                            if c < i {
                                assert(self.cmds@[c]->Some_0.name.spec_bytes() != word);
                            }
                            if c > i {
                                assert(self.cmds@[i as int]->Some_0.name.spec_bytes() != word);
                            }
                            assert(c == ii);
                            assert(self.cmds@[ii] == Some(*cmd));
                        }
                        return Some(*cmd);
                    }
                },
                None => {},
            }
            i = i + 1;
        }
        None
    }
}

/// The registered commands, behind a lock.
pub struct CommandList {
    inner: SpinLock<CommandListInner>,
}

impl CommandList {
    pub closed spec fn contents(&self) -> CommandListInner {
        self.inner.value()
    }

    pub closed spec fn is_locked(&self) -> bool {
        self.inner.is_locked()
    }

    pub fn new() -> (r: Self)
        ensures
            r.contents().wf(),
            r.contents().next_idx == 0,
            !r.is_locked(),
    {
        CommandList { inner: SpinLock::new(CommandListInner::new()) }
    }

    /// Whether every slot is taken.
    pub fn is_full(&self) -> (r: bool)
        ensures
            r == (self.contents().next_idx >= NUM_CMDS),
    {
        self.inner.get_data().is_full()
    }

    pub fn register_cmd(&mut self, name: &'static str, entry: usize)
        requires
            old(self).contents().wf(),
            old(self).contents().next_idx < NUM_CMDS,
            !old(self).is_locked(),
        ensures
            final(self).contents().wf(),
            final(self).contents().next_idx == old(self).contents().next_idx + 1,
            final(self).contents().cmds@ == old(self).contents().cmds@.update(
                old(self).contents().next_idx as int,
                Some(Command { name, entry }),
            ),
            !final(self).is_locked(),
    {
        self.inner.try_lock();
        self.inner.get_data_mut().register_cmd(name, entry);
        self.inner.unlock();
    }

    pub fn print_cmds(&mut self) -> (r: Vec<&'static str>)
        requires
            old(self).contents().wf(),
            !old(self).is_locked(),
        ensures
            r@ == old(self).contents().names(),
            final(self).contents() == old(self).contents(),
            !final(self).is_locked(),
    {
        self.inner.try_lock();
        let names = self.inner.get_data().print_cmds();
        self.inner.unlock();
        names
    }

    pub fn run_cmd(&mut self, cmd_with_args: &str) -> (r: Option<Command>)
        requires
            old(self).contents().wf(),
            !old(self).is_locked(),
        ensures
            match old(self).contents().lookup(first_word(cmd_with_args.spec_bytes())) {
                Some(i) => r == old(self).contents().cmds@[i],
                None => r is None,
            },
            final(self).contents() == old(self).contents(),
            !final(self).is_locked(),
    {
        self.inner.try_lock();
        let found = self.inner.get_data().run_cmd(cmd_with_args);
        self.inner.unlock();
        found
    }
}

/// Registers a command with the shell's list, which must have a free slot.
pub fn register_cmd(list: &mut CommandList, name: &'static str, entry: usize)
    requires
        old(list).contents().wf(),
        old(list).contents().next_idx < NUM_CMDS,
        !old(list).is_locked(),
    ensures
        final(list).contents().wf(),
        final(list).contents().next_idx == old(list).contents().next_idx + 1,
        final(list).contents().cmds@ == old(list).contents().cmds@.update(
            old(list).contents().next_idx as int,
            Some(Command { name, entry }),
        ),
        !final(list).is_locked(),
{
    list.register_cmd(name, entry)
}

/// What the shell does with a line.
#[derive(Clone, Copy, Debug, PartialEq, Eq, Structural)]
pub enum ShellAction {
    /// An empty line: nothing.
    Nothing,
    /// `help`: list the commands.
    Help,
    /// Anything else: start the command the line names.
    Run,
}

/// How the shell treats the line `command`.
pub fn parse_command(command: &str) -> (r: ShellAction)
    ensures
        command.spec_bytes().len() == 0 ==> r == ShellAction::Nothing,
        command.spec_bytes().len() != 0 && command.spec_bytes() == "help".spec_bytes() ==> r == ShellAction::Help,
        command.spec_bytes().len() != 0 && command.spec_bytes() != "help".spec_bytes() ==> r == ShellAction::Run,
{
    let line = command.as_bytes();
    let help = "help".as_bytes();
    if line.len() == 0 {
        ShellAction::Nothing
    } else if name_matches(help, line, line.len()) {
        proof {
            assert(line@.take(line@.len() as int) =~= line@);
        }
        ShellAction::Help
    } else {
        proof {
            assert(line@.take(line@.len() as int) =~= line@);
        }
        ShellAction::Run
    }
}

} // verus!
