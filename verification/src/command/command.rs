//! The commands: add a connection, delete connections, edit a connection.
//! Each one is run on the registry that it is handed, remembers what it
//! needs to take its change back, and can be run again after that.

use vstd::prelude::*;
pub use vstd::hash_map::StringHashMap;
use vstd::string::StringExecFns;
use crate::models::connection::Connection;
use crate::models::connection::ConnectionView;
use crate::models::connection::TerminalView;
use crate::models::connection_manager::duplicate_free;
use crate::models::connection_manager::holds;
use crate::models::connection_manager::without;
use crate::models::connection_manager::position_of;
use crate::models::connection_manager::position_of_uuid;
use crate::models::connection_manager::ConnectionManager;
use crate::models::connection_manager::ConnectionManagerError;
use crate::models::connection::wires;

verus! {

/// Why a command, or the history, could not do what it was asked.
#[derive(Debug)]
pub enum CommandError {
    /// The connection to add is in the registry already.
    DuplicateConnection,
    /// A connection could not be removed.
    ConnectionNotDeleted,
    /// The connection that the command is about is not in the registry.
    ConnectionNotFoundError,
    /// There is no command to take back.
    NothingToUndo,
    /// There is no command to run again.
    NothingToRedo,
    /// Anything else; the text says what.
    Other(String),
}

/// What an error says, for whoever reads it.
pub open spec fn error_text(error: CommandError) -> Seq<char> {
    match error {
        CommandError::DuplicateConnection => "Duplicate connection detected."@,
        CommandError::ConnectionNotDeleted => "Connection was not successfully removed."@,
        CommandError::ConnectionNotFoundError => "Connection not found"@,
        CommandError::NothingToUndo => "No command to undo"@,
        CommandError::NothingToRedo => "No command to redo"@,
        CommandError::Other(cause) => cause@,
    }
}

impl CommandError {
    /// What the error says, for whoever reads it.
    pub fn message(&self) -> (text: String)
        ensures
            text@ == error_text(*self),
    {
        match self {
            CommandError::DuplicateConnection => String::from_str("Duplicate connection detected."),
            CommandError::ConnectionNotDeleted => String::from_str(
                "Connection was not successfully removed.",
            ),
            CommandError::ConnectionNotFoundError => String::from_str("Connection not found"),
            CommandError::NothingToUndo => String::from_str("No command to undo"),
            CommandError::NothingToRedo => String::from_str("No command to redo"),
            CommandError::Other(cause) => cause.clone(),
        }
    }
}

/// A change to the registry that can be taken back and run again.
///
/// Each of the three steps is described by a relation between the command
/// and the registry before the step, the two after it, and what the step
/// returned. A relation, because a step may draw identifiers.
pub trait Command: Sized {
    /// What `execute` does.
    spec fn executed(
        &self,
        after: &Self,
        registry: &ConnectionManager,
        registry_after: &ConnectionManager,
        result: Result<(), CommandError>,
    ) -> bool;

    /// What `undo` does.
    spec fn undone(
        &self,
        after: &Self,
        registry: &ConnectionManager,
        registry_after: &ConnectionManager,
        result: Result<(), CommandError>,
    ) -> bool;

    /// What `redo` does.
    spec fn redone(
        &self,
        after: &Self,
        registry: &ConnectionManager,
        registry_after: &ConnectionManager,
        result: Result<(), CommandError>,
    ) -> bool;

    /// Makes the change.
    fn execute(&mut self, manager: &mut ConnectionManager) -> (result: Result<(), CommandError>)
        ensures
            old(self).executed(final(self), old(manager), final(manager), result),
    ;

    /// Takes the change back.
    fn undo(&mut self, manager: &mut ConnectionManager) -> (result: Result<(), CommandError>)
        ensures
            old(self).undone(final(self), old(manager), final(manager), result),
    ;

    /// Makes the change again after it was taken back.
    fn redo(&mut self, manager: &mut ConnectionManager) -> (result: Result<(), CommandError>)
        ensures
            old(self).redone(final(self), old(manager), final(manager), result),
    ;
}

/// Named values, as a command is given them: texts by name.
pub type FieldsView = Map<Seq<char>, Seq<char>>;

/// The texts of a map of named values.
pub open spec fn fields_of(values: Map<Seq<char>, String>) -> FieldsView {
    values.map_values(|text: String| text@)
}

/// The text named `key`, or the empty text where none has that name.
pub open spec fn field_or_empty(fields: FieldsView, key: Seq<char>) -> Seq<char> {
    if fields.contains_key(key) {
        fields[key]
    } else {
        Seq::empty()
    }
}

/// The terminal that the values name by `component`, `terminal_block` and
/// `terminal`; a part that they do not name is empty.
pub open spec fn terminal_of(fields: FieldsView) -> TerminalView {
    (
        field_or_empty(fields, "component"@),
        field_or_empty(fields, "terminal_block"@),
        field_or_empty(fields, "terminal"@),
    )
}

/// The six texts of the connection that an edit makes: those that the new
/// values name, and the empty text for each that they do not name.
pub open spec fn edited_fields(new_values: FieldsView) -> (TerminalView, TerminalView) {
    (
        (
            field_or_empty(new_values, "src_component"@),
            field_or_empty(new_values, "src_terminal_block"@),
            field_or_empty(new_values, "src_terminal"@),
        ),
        (
            field_or_empty(new_values, "dst_component"@),
            field_or_empty(new_values, "dst_terminal_block"@),
            field_or_empty(new_values, "dst_terminal"@),
        ),
    )
}

/// A copy of the text named `key`, or the empty text.
fn field_or_default(fields: &StringHashMap<String>, key: &str) -> (text: String)
    ensures
        text@ == field_or_empty(fields_of(fields@), key@),
{
    match fields.get(key) {
        Some(text) => text.clone(),
        None => String::new(),
    }
}

/// The view of a connection that a command remembers.
pub open spec fn remembered(connection: Option<Connection>) -> Option<ConnectionView> {
    match connection {
        Some(connection) => Some(connection@),
        None => None,
    }
}

/// Adds the connection between two terminals.
pub struct AddConnectionCommand {
    source: StringHashMap<String>,
    destination: StringHashMap<String>,
    connection: Option<Connection>,
}

impl AddConnectionCommand {
    /// The terminal at which the connection starts.
    pub closed spec fn source(&self) -> TerminalView {
        terminal_of(fields_of(self.source@))
    }

    /// The terminal at which the connection ends.
    pub closed spec fn destination(&self) -> TerminalView {
        terminal_of(fields_of(self.destination@))
    }

    /// The connection that the last successful run added.
    pub closed spec fn connection(&self) -> Option<ConnectionView> {
        remembered(self.connection)
    }

    /// A command that adds the connection between the terminal that `source`
    /// names and the one that `destination` names. Each names its terminal
    /// by values called `component`, `terminal_block` and `terminal`; a part
    /// that is not named is empty.
    pub fn new(source: StringHashMap<String>, destination: StringHashMap<String>) -> (command:
        AddConnectionCommand)
        ensures
            command.source() == terminal_of(fields_of(source@)),
            command.destination() == terminal_of(fields_of(destination@)),
            command.connection() is None,
    {
        AddConnectionCommand { source, destination, connection: None }
    }
}

impl AddConnectionCommand {
    /// The connection is added unless the registry holds an equal one; the
    /// command remembers the connection that was added.
    pub open spec fn executes(
        &self,
        after: &Self,
        registry: &ConnectionManager,
        registry_after: &ConnectionManager,
        result: Result<(), CommandError>,
    ) -> bool {
        &&& after.source() == self.source()
        &&& after.destination() == self.destination()
        &&& duplicate_free(registry.wires())
        &&& duplicate_free(registry_after.wires())
        &&& if holds(registry.wires(), self.source(), self.destination()) {
            &&& result matches Err(CommandError::DuplicateConnection)
            &&& registry_after@ == registry@
            &&& after.connection() == self.connection()
        } else {
            &&& result is Ok
            &&& after.connection() matches Some(wire) && wire.fields() == (
                self.source(),
                self.destination(),
            ) && registry_after.wires() == registry.wires().push(wire)
            &&& registry_after.unsaved()
            &&& registry_after.same_setup(registry)
        }
    }

    /// The first stored connection that equals the remembered one is
    /// removed. Without a remembered connection, or without an equal one in
    /// the registry, nothing changes and an error says so.
    pub open spec fn undoes(
        &self,
        after: &Self,
        registry: &ConnectionManager,
        registry_after: &ConnectionManager,
        result: Result<(), CommandError>,
    ) -> bool {
        &&& *after == *self
        &&& duplicate_free(registry.wires())
        &&& duplicate_free(registry_after.wires())
        &&& match self.connection() {
            None => {
                &&& result matches Err(CommandError::Other(cause))
                &&& cause@ == "No connection to undo"@
                &&& registry_after@ == registry@
            },
            Some(wire) => {
                let at = position_of(registry.wires(), wire.source(), wire.destination());
                if at < registry.wires().len() {
                    &&& result is Ok
                    &&& registry_after.wires() == registry.wires().remove(at)
                    &&& registry_after.unsaved()
                    &&& registry_after.same_setup(registry)
                } else {
                    &&& result matches Err(CommandError::Other(cause))
                    &&& cause@ == "Failed to delete connection: Connection not found"@
                    &&& registry_after@ == registry@
                }
            },
        }
    }

    /// Running again is running: the registry is asked anew whether it holds
    /// an equal connection.
    pub open spec fn redoes(
        &self,
        after: &Self,
        registry: &ConnectionManager,
        registry_after: &ConnectionManager,
        result: Result<(), CommandError>,
    ) -> bool {
        self.executes(after, registry, registry_after, result)
    }
}

impl Command for AddConnectionCommand {
    open spec fn executed(
        &self,
        after: &Self,
        registry: &ConnectionManager,
        registry_after: &ConnectionManager,
        result: Result<(), CommandError>,
    ) -> bool {
        self.executes(after, registry, registry_after, result)
    }

    open spec fn undone(
        &self,
        after: &Self,
        registry: &ConnectionManager,
        registry_after: &ConnectionManager,
        result: Result<(), CommandError>,
    ) -> bool {
        self.undoes(after, registry, registry_after, result)
    }

    open spec fn redone(
        &self,
        after: &Self,
        registry: &ConnectionManager,
        registry_after: &ConnectionManager,
        result: Result<(), CommandError>,
    ) -> bool {
        self.redoes(after, registry, registry_after, result)
    }

    fn execute(&mut self, manager: &mut ConnectionManager) -> (result: Result<(), CommandError>) {
        proof {
            use_type_invariant(&*manager);
        }
        let src_component = field_or_default(&self.source, "component");
        let src_terminal_block = field_or_default(&self.source, "terminal_block");
        let src_terminal = field_or_default(&self.source, "terminal");
        let dst_component = field_or_default(&self.destination, "component");
        let dst_terminal_block = field_or_default(&self.destination, "terminal_block");
        let dst_terminal = field_or_default(&self.destination, "terminal");
        match manager.add_connection(
            src_component,
            src_terminal_block,
            src_terminal,
            dst_component,
            dst_terminal_block,
            dst_terminal,
        ) {
            Ok(connection) => {
                self.connection = Some(connection);
                Ok(())
            },
            Err(error) => match error {
                ConnectionManagerError::DuplicateConnection => Err(
                    CommandError::DuplicateConnection,
                ),
                _ => Err(CommandError::Other(error.message())),
            },
        }
    }

    fn undo(&mut self, manager: &mut ConnectionManager) -> (result: Result<(), CommandError>) {
        proof {
            use_type_invariant(&*manager);
        }
        match &self.connection {
            Some(connection) => match manager.delete_connection(connection) {
                Ok(_) => Ok(()),
                Err(error) => {
                    let cause = String::from_str("Failed to delete connection: ").concat(
                        error.message().as_str(),
                    );
                    proof {
                        reveal_strlit("Failed to delete connection: ");
                        reveal_strlit("Connection not found");
                        reveal_strlit("Failed to delete connection: Connection not found");
                        assert(cause@ =~= "Failed to delete connection: Connection not found"@);
                    }
                    Err(CommandError::Other(cause))
                },
            },
            None => Err(CommandError::Other(String::from_str("No connection to undo"))),
        }
    }

    fn redo(&mut self, manager: &mut ConnectionManager) -> (result: Result<(), CommandError>) {
        self.execute(manager)
    }
}

/// What deleting by one identifier leaves of `list`: the first connection
/// with the identifier is removed. Without a connection with the identifier
/// `list` stays.
pub open spec fn delete_step(list: Seq<ConnectionView>, uuid: u128) -> Seq<ConnectionView> {
    without(list, position_of_uuid(list, uuid))
}

/// What deleting by the identifiers, one after the other, leaves of `list`.
pub open spec fn after_deleting(list: Seq<ConnectionView>, uuids: Seq<u128>) -> Seq<ConnectionView>
    decreases uuids.len(),
{
    if uuids.len() == 0 {
        list
    } else {
        delete_step(after_deleting(list, uuids.drop_last()), uuids.last())
    }
}

/// The connections that deleting by the identifiers looks up and records,
/// in the order of the identifiers.
pub open spec fn recorded_deleting(list: Seq<ConnectionView>, uuids: Seq<u128>) -> Seq<
    ConnectionView,
>
    decreases uuids.len(),
{
    if uuids.len() == 0 {
        Seq::empty()
    } else {
        let earlier = recorded_deleting(list, uuids.drop_last());
        let current = after_deleting(list, uuids.drop_last());
        let found = position_of_uuid(current, uuids.last());
        if found < current.len() {
            earlier.push(current[found])
        } else {
            earlier
        }
    }
}

/// `list` after the recorded connections are added again, one after the
/// other, each with the identifier that `ids` holds for it and unless the
/// list holds an equal connection by then.
pub open spec fn readded(
    list: Seq<ConnectionView>,
    recorded: Seq<ConnectionView>,
    ids: Seq<u128>,
) -> Seq<ConnectionView>
    decreases recorded.len(),
{
    if recorded.len() == 0 || ids.len() != recorded.len() {
        list
    } else {
        let earlier = readded(list, recorded.drop_last(), ids.drop_last());
        let wire = recorded.last();
        if holds(earlier, wire.source(), wire.destination()) {
            earlier
        } else {
            earlier.push(
                ConnectionView {
                    src_component: wire.src_component,
                    src_terminal_block: wire.src_terminal_block,
                    src_terminal: wire.src_terminal,
                    dst_component: wire.dst_component,
                    dst_terminal_block: wire.dst_terminal_block,
                    dst_terminal: wire.dst_terminal,
                    uuid: ids.last(),
                },
            )
        }
    }
}

/// Deletes the connections with given identifiers.
#[derive(Debug)]
pub struct DeleteConnectionCommand {
    connection_uuids: Vec<u128>,
    deleted_connections: Vec<Connection>,
}

impl DeleteConnectionCommand {
    /// The identifiers of the connections to delete.
    pub closed spec fn targets(&self) -> Seq<u128> {
        self.connection_uuids@
    }

    /// The connections that the last run removed, in the order in which it
    /// removed them.
    pub closed spec fn deleted(&self) -> Seq<ConnectionView> {
        wires(self.deleted_connections@)
    }

    /// A command that deletes the connections with the identifiers given.
    pub fn new(connection_uuids: Vec<u128>) -> (command: DeleteConnectionCommand)
        ensures
            command.targets() == connection_uuids@,
            command.deleted().len() == 0,
    {
        DeleteConnectionCommand { connection_uuids, deleted_connections: Vec::new() }
    }
}

impl DeleteConnectionCommand {
    /// For each identifier in turn, the first connection that has it is
    /// removed and recorded. An identifier that no connection has is passed
    /// over. What an earlier run recorded is forgotten.
    pub open spec fn executes(
        &self,
        after: &Self,
        registry: &ConnectionManager,
        registry_after: &ConnectionManager,
        result: Result<(), CommandError>,
    ) -> bool {
        let recorded = recorded_deleting(registry.wires(), self.targets());
        &&& result is Ok
        &&& duplicate_free(registry.wires())
        &&& duplicate_free(registry_after.wires())
        &&& after.targets() == self.targets()
        &&& after.deleted() == recorded
        &&& registry_after.wires() == after_deleting(registry.wires(), self.targets())
        &&& if recorded.len() > 0 {
            registry_after.unsaved() && registry_after.same_setup(registry)
        } else {
            registry_after@ == registry@
        }
    }

    /// Each recorded connection is added again, with a fresh identifier,
    /// unless the registry holds an equal one by then. All of them are
    /// tried; where one was not added, the error says so.
    pub open spec fn undoes(
        &self,
        after: &Self,
        registry: &ConnectionManager,
        registry_after: &ConnectionManager,
        result: Result<(), CommandError>,
    ) -> bool {
        &&& *after == *self
        &&& duplicate_free(registry.wires())
        &&& duplicate_free(registry_after.wires())
        &&& exists|ids: Seq<u128>|
            ids.len() == self.deleted().len() && registry_after.wires() == #[trigger] readded(
                registry.wires(),
                self.deleted(),
                ids,
            )
        &&& if registry_after.wires().len() == registry.wires().len() + self.deleted().len() {
            result is Ok
        } else {
            result matches Err(CommandError::DuplicateConnection)
        }
        &&& if registry_after.wires().len() > registry.wires().len() {
            registry_after.unsaved() && registry_after.same_setup(registry)
        } else {
            registry_after@ == registry@
        }
    }

    /// Running again is running, with the identifiers that the command was
    /// made with.
    pub open spec fn redoes(
        &self,
        after: &Self,
        registry: &ConnectionManager,
        registry_after: &ConnectionManager,
        result: Result<(), CommandError>,
    ) -> bool {
        self.executes(after, registry, registry_after, result)
    }
}

impl Command for DeleteConnectionCommand {
    open spec fn executed(
        &self,
        after: &Self,
        registry: &ConnectionManager,
        registry_after: &ConnectionManager,
        result: Result<(), CommandError>,
    ) -> bool {
        self.executes(after, registry, registry_after, result)
    }

    open spec fn undone(
        &self,
        after: &Self,
        registry: &ConnectionManager,
        registry_after: &ConnectionManager,
        result: Result<(), CommandError>,
    ) -> bool {
        self.undoes(after, registry, registry_after, result)
    }

    open spec fn redone(
        &self,
        after: &Self,
        registry: &ConnectionManager,
        registry_after: &ConnectionManager,
        result: Result<(), CommandError>,
    ) -> bool {
        self.redoes(after, registry, registry_after, result)
    }

    fn execute(&mut self, manager: &mut ConnectionManager) -> (result: Result<(), CommandError>) {
        proof {
            use_type_invariant(&*manager);
        }
        self.deleted_connections.clear();
        let ghost uuids = self.connection_uuids@;
        let ghost start = manager.wires();
        let mut at: usize = 0;
        assert(wires(self.deleted_connections@) =~= Seq::<ConnectionView>::empty());
        while at < self.connection_uuids.len()
            invariant
                at <= uuids.len(),
                self.connection_uuids@ == uuids,
                duplicate_free(manager.wires()),
                manager.wires() == after_deleting(start, uuids.take(at as int)),
                wires(self.deleted_connections@) == recorded_deleting(start, uuids.take(at as int)),
                if recorded_deleting(start, uuids.take(at as int)).len() > 0 {
                    manager.unsaved() && manager.same_setup(old(manager))
                } else {
                    manager@ == old(manager)@
                },
            decreases uuids.len() - at,
        {
            let ghost earlier = wires(self.deleted_connections@);
            proof {
                assert(uuids.take(at + 1).drop_last() =~= uuids.take(at as int));
                assert(uuids.take(at + 1).last() == uuids[at as int]);
            }
            let found = manager.position_by_uuid(self.connection_uuids[at]);
            if found < manager.len() {
                let connection = manager.remove_at(found);
                self.deleted_connections.push(connection);
                proof {
                    assert(wires(self.deleted_connections@) =~= earlier.push(connection@));
                }
            }
            at = at + 1;
        }
        proof {
            assert(uuids.take(at as int) =~= uuids);
        }
        Ok(())
    }

    fn undo(&mut self, manager: &mut ConnectionManager) -> (result: Result<(), CommandError>) {
        proof {
            use_type_invariant(&*manager);
        }
        let ghost start = manager.wires();
        let ghost recorded = wires(self.deleted_connections@);
        let ghost mut ids: Seq<u128> = Seq::empty();
        let mut all_added = true;
        let mut at: usize = 0;
        while at < self.deleted_connections.len()
            invariant
                at <= recorded.len(),
                wires(self.deleted_connections@) == recorded,
                ids.len() == at,
                duplicate_free(manager.wires()),
                manager.wires() == readded(start, recorded.take(at as int), ids),
                start.len() <= manager.wires().len() <= start.len() + at,
                all_added <==> manager.wires().len() == start.len() + at,
                if manager.wires().len() > start.len() {
                    manager.unsaved() && manager.same_setup(old(manager))
                } else {
                    manager@ == old(manager)@
                },
            decreases recorded.len() - at,
        {
            let connection = &self.deleted_connections[at];
            let ghost earlier = manager.wires();
            let ghost earlier_ids = ids;
            proof {
                assert(recorded[at as int] == connection@);
            }
            match manager.add_connection(
                connection.src_component.clone(),
                connection.src_terminal_block.clone(),
                connection.src_terminal.clone(),
                connection.dst_component.clone(),
                connection.dst_terminal_block.clone(),
                connection.dst_terminal.clone(),
            ) {
                Ok(added) => {
                    proof {
                        ids = ids.push(added@.uuid);
                    }
                },
                Err(_) => {
                    all_added = false;
                    proof {
                        ids = ids.push(0u128);
                    }
                },
            }
            proof {
                assert(recorded.take(at + 1).drop_last() =~= recorded.take(at as int));
                assert(recorded.take(at + 1).last() == connection@);
                assert(ids.drop_last() =~= earlier_ids);
            }
            at = at + 1;
        }
        proof {
            assert(recorded.take(at as int) =~= recorded);
            assert(recorded == old(self).deleted());
            assert(exists|ids: Seq<u128>|
                ids.len() == old(self).deleted().len() && manager.wires() == #[trigger] readded(
                    old(manager).wires(),
                    old(self).deleted(),
                    ids,
                ));
        }
        if all_added {
            Ok(())
        } else {
            Err(CommandError::DuplicateConnection)
        }
    }

    fn redo(&mut self, manager: &mut ConnectionManager) -> (result: Result<(), CommandError>) {
        self.execute(manager)
    }
}

/// Replaces the connection with a given identifier by one with new texts.
pub struct EditConnectionCommand {
    old_connection_uuid: u128,
    new_values: StringHashMap<String>,
    old_connection: Option<Connection>,
    new_connection_uuid: Option<u128>,
}

impl EditConnectionCommand {
    /// The identifier of the connection to replace.
    pub closed spec fn target(&self) -> u128 {
        self.old_connection_uuid
    }

    /// The values that name the texts of the replacement.
    pub closed spec fn new_values(&self) -> FieldsView {
        fields_of(self.new_values@)
    }

    /// The connection that the last successful run replaced.
    pub closed spec fn replaced(&self) -> Option<ConnectionView> {
        remembered(self.old_connection)
    }

    /// The identifier of the connection that the last successful run made.
    pub closed spec fn replacement(&self) -> Option<u128> {
        self.new_connection_uuid
    }

    /// A command that replaces the connection with the identifier
    /// `old_connection_uuid` by one whose texts `new_values` name:
    /// `src_component`, `src_terminal_block`, `src_terminal`,
    /// `dst_component`, `dst_terminal_block`, `dst_terminal`. A text that is
    /// not named is empty.
    pub fn new(old_connection_uuid: u128, new_values: StringHashMap<String>) -> (command:
        EditConnectionCommand)
        ensures
            command.target() == old_connection_uuid,
            command.new_values() == fields_of(new_values@),
            command.replaced() is None,
            command.replacement() is None,
    {
        EditConnectionCommand {
            old_connection_uuid,
            new_values,
            old_connection: None,
            new_connection_uuid: None,
        }
    }
}

impl EditConnectionCommand {
    /// The first connection with the identifier is taken out and remembered,
    /// and a connection with the new texts and a fresh identifier is placed
    /// behind the others; its identifier is remembered too. Where one of the
    /// other connections equals the new one, or no connection has the
    /// identifier, nothing changes and the error says which.
    pub open spec fn executes(
        &self,
        after: &Self,
        registry: &ConnectionManager,
        registry_after: &ConnectionManager,
        result: Result<(), CommandError>,
    ) -> bool {
        let at = position_of_uuid(registry.wires(), self.target());
        let texts = edited_fields(self.new_values());
        &&& after.target() == self.target()
        &&& after.new_values() == self.new_values()
        &&& duplicate_free(registry.wires())
        &&& duplicate_free(registry_after.wires())
        &&& if at >= registry.wires().len() {
            &&& result matches Err(CommandError::ConnectionNotFoundError)
            &&& registry_after@ == registry@
            &&& *after == *self
        } else if holds(registry.wires().remove(at), texts.0, texts.1) {
            &&& result matches Err(CommandError::DuplicateConnection)
            &&& registry_after@ == registry@
            &&& *after == *self
        } else {
            &&& result is Ok
            &&& after.replaced() == Some(registry.wires()[at])
            &&& registry_after.wires().len() == registry.wires().len()
            &&& registry_after.wires().drop_last() == registry.wires().remove(at)
            &&& registry_after.wires().last().fields() == texts
            &&& after.replacement() == Some(registry_after.wires().last().uuid)
            &&& registry_after.unsaved()
            &&& registry_after.same_setup(registry)
        }
    }

    /// The first connection with the identifier of the replacement is
    /// removed, where there is one, and the replaced connection is placed
    /// behind the others. Where one of the other connections equals the
    /// replaced one, nothing changes and the error says so. A command that
    /// was never run changes nothing.
    pub open spec fn undoes(
        &self,
        after: &Self,
        registry: &ConnectionManager,
        registry_after: &ConnectionManager,
        result: Result<(), CommandError>,
    ) -> bool {
        &&& *after == *self
        &&& duplicate_free(registry.wires())
        &&& duplicate_free(registry_after.wires())
        &&& match self.replacement() {
            None => result is Ok && registry_after@ == registry@,
            Some(uuid) => {
                let at = position_of_uuid(registry.wires(), uuid);
                let others = without(registry.wires(), at);
                match self.replaced() {
                    Some(wire) => if holds(others, wire.source(), wire.destination()) {
                        &&& result matches Err(CommandError::DuplicateConnection)
                        &&& registry_after@ == registry@
                    } else {
                        &&& result is Ok
                        &&& registry_after.wires() == others.push(wire)
                        &&& registry_after.unsaved()
                        &&& registry_after.same_setup(registry)
                    },
                    None => if at < registry.wires().len() {
                        &&& result is Ok
                        &&& registry_after.wires() == others
                        &&& registry_after.unsaved()
                        &&& registry_after.same_setup(registry)
                    } else {
                        result is Ok && registry_after@ == registry@
                    },
                }
            },
        }
    }

    /// Running again is running: the connection to replace is looked for by
    /// the identifier that the command was made with, which the connection
    /// has again once the edit was taken back.
    pub open spec fn redoes(
        &self,
        after: &Self,
        registry: &ConnectionManager,
        registry_after: &ConnectionManager,
        result: Result<(), CommandError>,
    ) -> bool {
        self.executes(after, registry, registry_after, result)
    }
}

impl Command for EditConnectionCommand {
    open spec fn executed(
        &self,
        after: &Self,
        registry: &ConnectionManager,
        registry_after: &ConnectionManager,
        result: Result<(), CommandError>,
    ) -> bool {
        self.executes(after, registry, registry_after, result)
    }

    open spec fn undone(
        &self,
        after: &Self,
        registry: &ConnectionManager,
        registry_after: &ConnectionManager,
        result: Result<(), CommandError>,
    ) -> bool {
        self.undoes(after, registry, registry_after, result)
    }

    open spec fn redone(
        &self,
        after: &Self,
        registry: &ConnectionManager,
        registry_after: &ConnectionManager,
        result: Result<(), CommandError>,
    ) -> bool {
        self.redoes(after, registry, registry_after, result)
    }

    fn execute(&mut self, manager: &mut ConnectionManager) -> (result: Result<(), CommandError>) {
        let at = manager.position_by_uuid(self.old_connection_uuid);
        if at >= manager.len() {
            return Err(CommandError::ConnectionNotFoundError);
        }
        let new_connection = Connection::new(
            field_or_default(&self.new_values, "src_component"),
            field_or_default(&self.new_values, "src_terminal_block"),
            field_or_default(&self.new_values, "src_terminal"),
            field_or_default(&self.new_values, "dst_component"),
            field_or_default(&self.new_values, "dst_terminal_block"),
            field_or_default(&self.new_values, "dst_terminal"),
        );
        if manager.holds_besides(at, &new_connection) {
            return Err(CommandError::DuplicateConnection);
        }
        let ghost before = manager.wires();
        let old_connection = manager.remove_at(at);
        self.old_connection = Some(old_connection);
        self.new_connection_uuid = Some(new_connection.uuid);
        manager.push(new_connection);
        proof {
            assert(manager.wires().drop_last() =~= before.remove(at as int));
        }
        Ok(())
    }

    fn undo(&mut self, manager: &mut ConnectionManager) -> (result: Result<(), CommandError>) {
        proof {
            use_type_invariant(&*manager);
        }
        if let Some(new_connection_uuid) = self.new_connection_uuid {
            let at = manager.position_by_uuid(new_connection_uuid);
            match &self.old_connection {
                Some(old_connection) => {
                    if manager.holds_besides(at, old_connection) {
                        return Err(CommandError::DuplicateConnection);
                    }
                    if at < manager.len() {
                        let _ = manager.remove_at(at);
                    }
                    manager.push(old_connection.clone());
                },
                None => {
                    if at < manager.len() {
                        let _ = manager.remove_at(at);
                    }
                },
            }
        }
        Ok(())
    }

    fn redo(&mut self, manager: &mut ConnectionManager) -> (result: Result<(), CommandError>) {
        self.execute(manager)
    }
}

/// Any one of the three commands, so that one history can hold them all.
pub enum ConnectionCommand {
    Add(AddConnectionCommand),
    Delete(DeleteConnectionCommand),
    Edit(EditConnectionCommand),
}

impl Command for ConnectionCommand {
    /// What the command inside does; a command stays of its kind.
    open spec fn executed(
        &self,
        after: &Self,
        registry: &ConnectionManager,
        registry_after: &ConnectionManager,
        result: Result<(), CommandError>,
    ) -> bool {
        match (*self, *after) {
            (ConnectionCommand::Add(before), ConnectionCommand::Add(after)) => before.executes(
                &after,
                registry,
                registry_after,
                result,
            ),
            (
                ConnectionCommand::Delete(before),
                ConnectionCommand::Delete(after),
            ) => before.executes(&after, registry, registry_after, result),
            (ConnectionCommand::Edit(before), ConnectionCommand::Edit(after)) => before.executes(
                &after,
                registry,
                registry_after,
                result,
            ),
            _ => false,
        }
    }

    /// What the command inside does; a command stays of its kind.
    open spec fn undone(
        &self,
        after: &Self,
        registry: &ConnectionManager,
        registry_after: &ConnectionManager,
        result: Result<(), CommandError>,
    ) -> bool {
        match (*self, *after) {
            (ConnectionCommand::Add(before), ConnectionCommand::Add(after)) => before.undoes(
                &after,
                registry,
                registry_after,
                result,
            ),
            (ConnectionCommand::Delete(before), ConnectionCommand::Delete(after)) => before.undoes(
                &after,
                registry,
                registry_after,
                result,
            ),
            (ConnectionCommand::Edit(before), ConnectionCommand::Edit(after)) => before.undoes(
                &after,
                registry,
                registry_after,
                result,
            ),
            _ => false,
        }
    }

    /// What the command inside does; a command stays of its kind.
    open spec fn redone(
        &self,
        after: &Self,
        registry: &ConnectionManager,
        registry_after: &ConnectionManager,
        result: Result<(), CommandError>,
    ) -> bool {
        match (*self, *after) {
            (ConnectionCommand::Add(before), ConnectionCommand::Add(after)) => before.redoes(
                &after,
                registry,
                registry_after,
                result,
            ),
            (ConnectionCommand::Delete(before), ConnectionCommand::Delete(after)) => before.redoes(
                &after,
                registry,
                registry_after,
                result,
            ),
            (ConnectionCommand::Edit(before), ConnectionCommand::Edit(after)) => before.redoes(
                &after,
                registry,
                registry_after,
                result,
            ),
            _ => false,
        }
    }

    fn execute(&mut self, manager: &mut ConnectionManager) -> (result: Result<(), CommandError>) {
        match self {
            ConnectionCommand::Add(command) => command.execute(manager),
            ConnectionCommand::Delete(command) => command.execute(manager),
            ConnectionCommand::Edit(command) => command.execute(manager),
        }
    }

    fn undo(&mut self, manager: &mut ConnectionManager) -> (result: Result<(), CommandError>) {
        match self {
            ConnectionCommand::Add(command) => command.undo(manager),
            ConnectionCommand::Delete(command) => command.undo(manager),
            ConnectionCommand::Edit(command) => command.undo(manager),
        }
    }

    fn redo(&mut self, manager: &mut ConnectionManager) -> (result: Result<(), CommandError>) {
        match self {
            ConnectionCommand::Add(command) => command.redo(manager),
            ConnectionCommand::Delete(command) => command.redo(manager),
            ConnectionCommand::Edit(command) => command.redo(manager),
        }
    }
}

} // verus!
