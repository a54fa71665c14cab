//! The history of the commands that were run: those that can be taken back,
//! and those that were taken back and can be run again.

use vstd::prelude::*;
use crate::command::command::Command;
use crate::command::command::CommandError;
use crate::models::connection_manager::ConnectionManager;

verus! {

/// The two histories. A command is in one of them at a time: running it puts
/// it at the end of the first, taking it back moves it to the end of the
/// second, and running it again moves it back.
pub struct CommandManager<C: Command> {
    undo_stack: Vec<C>,
    redo_stack: Vec<C>,
}

impl<C: Command> CommandManager<C> {
    /// The commands that can be taken back, the last one run at the end.
    pub closed spec fn undo_history(&self) -> Seq<C> {
        self.undo_stack@
    }

    /// The commands that can be run again, the last one taken back at the
    /// end.
    pub closed spec fn redo_history(&self) -> Seq<C> {
        self.redo_stack@
    }

    /// Two empty histories.
    pub fn new() -> (history: CommandManager<C>)
        ensures
            history.undo_history().len() == 0,
            history.redo_history().len() == 0,
    {
        CommandManager { undo_stack: Vec::new(), redo_stack: Vec::new() }
    }

    /// The number of commands that can be taken back.
    pub fn undo_len(&self) -> (count: usize)
        ensures
            count == self.undo_history().len(),
    {
        self.undo_stack.len()
    }

    /// The number of commands that can be run again.
    pub fn redo_len(&self) -> (count: usize)
        ensures
            count == self.redo_history().len(),
    {
        self.redo_stack.len()
    }

    /// Runs the command on the registry. A command that succeeds is kept to
    /// be taken back, and nothing is left to run again. A command that fails
    /// is dropped, and both histories stay as they are.
    pub fn execute(&mut self, command: C, manager: &mut ConnectionManager) -> (result: Result<
        (),
        CommandError,
    >)
        ensures
            result is Ok ==> {
                &&& final(self).undo_history().len() == old(self).undo_history().len() + 1
                &&& final(self).undo_history().drop_last() == old(self).undo_history()
                &&& command.executed(
                    &final(self).undo_history().last(),
                    old(manager),
                    final(manager),
                    result,
                )
                &&& final(self).redo_history().len() == 0
            },
            result is Err ==> {
                &&& final(self).undo_history() == old(self).undo_history()
                &&& final(self).redo_history() == old(self).redo_history()
                &&& exists|dropped: C| #[trigger]
                    command.executed(&dropped, old(manager), final(manager), result)
            },
    {
        let mut command = command;
        let ghost given = command;
        let result = command.execute(manager);
        if result.is_ok() {
            let ghost earlier = self.undo_stack@;
            self.undo_stack.push(command);
            self.redo_stack.clear();
            assert(self.undo_stack@.drop_last() =~= earlier);
        } else {
            assert(given.executed(&command, old(manager), manager, result));
        }
        result
    }

    /// Runs the command as `execute` does, for a caller that does not ask
    /// how it went.
    pub fn execute_command(&mut self, command: C, manager: &mut ConnectionManager)
        ensures
            exists|result: Result<(), CommandError>, run: C| #[trigger]
                command.executed(&run, old(manager), final(manager), result) && if result is Ok {
                    &&& final(self).undo_history() == old(self).undo_history().push(run)
                    &&& final(self).redo_history().len() == 0
                } else {
                    &&& final(self).undo_history() == old(self).undo_history()
                    &&& final(self).redo_history() == old(self).redo_history()
                },
    {
        let ghost earlier = self.undo_history();
        let ghost given = command;
        let result = self.execute(command, manager);
        proof {
            if result is Ok {
                let run = self.undo_history().last();
                assert(self.undo_history() =~= earlier.push(run));
                assert(given.executed(&run, old(manager), manager, result));
            } else {
                let run = choose|dropped: C| #[trigger]
                    given.executed(&dropped, old(manager), manager, result);
                assert(given.executed(&run, old(manager), manager, result));
            }
        }
    }

    /// Takes back the command that was run last, and keeps it to be run
    /// again. Where it cannot be taken back it is dropped and its error
    /// handed on. Without a command to take back nothing changes.
    pub fn undo(&mut self, manager: &mut ConnectionManager) -> (result: Result<(), CommandError>)
        ensures
            old(self).undo_history().len() == 0 ==> {
                &&& result matches Err(CommandError::NothingToUndo)
                &&& final(self).undo_history() == old(self).undo_history()
                &&& final(self).redo_history() == old(self).redo_history()
                &&& final(manager)@ == old(manager)@
            },
            old(self).undo_history().len() > 0 ==> {
                &&& final(self).undo_history() == old(self).undo_history().drop_last()
                &&& exists|taken: C| #[trigger]
                    old(self).undo_history().last().undone(
                        &taken,
                        old(manager),
                        final(manager),
                        result,
                    ) && final(self).redo_history() == if result is Ok {
                        old(self).redo_history().push(taken)
                    } else {
                        old(self).redo_history()
                    }
            },
    {
        match self.undo_stack.pop() {
            Some(command) => {
                let mut command = command;
                let ghost top = command;
                let result = command.undo(manager);
                if result.is_ok() {
                    self.redo_stack.push(command);
                }
                proof {
                    assert(top == old(self).undo_history().last());
                    assert(self.undo_history() =~= old(self).undo_history().drop_last());
                    assert(top.undone(&command, old(manager), manager, result));
                }
                result
            },
            None => Err(CommandError::NothingToUndo),
        }
    }

    /// Runs again the command that was taken back last, and keeps it to be
    /// taken back. Where it cannot be run it is dropped and its error handed
    /// on. Without a command to run again nothing changes.
    pub fn redo(&mut self, manager: &mut ConnectionManager) -> (result: Result<(), CommandError>)
        ensures
            old(self).redo_history().len() == 0 ==> {
                &&& result matches Err(CommandError::NothingToRedo)
                &&& final(self).undo_history() == old(self).undo_history()
                &&& final(self).redo_history() == old(self).redo_history()
                &&& final(manager)@ == old(manager)@
            },
            old(self).redo_history().len() > 0 ==> {
                &&& final(self).redo_history() == old(self).redo_history().drop_last()
                &&& exists|run: C| #[trigger]
                    old(self).redo_history().last().redone(
                        &run,
                        old(manager),
                        final(manager),
                        result,
                    ) && final(self).undo_history() == if result is Ok {
                        old(self).undo_history().push(run)
                    } else {
                        old(self).undo_history()
                    }
            },
    {
        match self.redo_stack.pop() {
            Some(command) => {
                let mut command = command;
                let ghost top = command;
                let result = command.redo(manager);
                if result.is_ok() {
                    self.undo_stack.push(command);
                }
                proof {
                    assert(top == old(self).redo_history().last());
                    assert(self.redo_history() =~= old(self).redo_history().drop_last());
                    assert(top.redone(&command, old(manager), manager, result));
                }
                result
            },
            None => Err(CommandError::NothingToRedo),
        }
    }
}

} // verus!
