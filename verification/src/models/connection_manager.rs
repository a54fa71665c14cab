//! The registry of connections: an ordered list that never holds two equal
//! connections, whichever way round they are given.

use vstd::prelude::*;
use vstd::string::StringExecFns;
use crate::config::settings::default_settings;
use crate::config::settings::settings_read;
use crate::config::settings::Settings;
use crate::config::settings::SettingsView;
use crate::models::connection::all_readable;
use crate::models::connection::read_as_list;
use crate::models::connection::reads_as;
use crate::models::connection::record_of;
use crate::models::connection::record_readable;
use crate::models::connection::record_texts;
use crate::models::connection::wires;
use crate::models::connection::Connection;
use crate::models::connection::ConnectionView;
use crate::models::connection::TerminalView;
use crate::utils::csv_writer::csv_text;
use crate::utils::csv_writer::field_views;
use crate::utils::csv_writer::into_text;
use crate::utils::csv_writer::new_writer;
use crate::utils::csv_writer::write_record;
use crate::utils::csv_writer::written_records;
use crate::utils::csv_writer::writer_delimiter;
use crate::utils::file_handler::FileHandler;
use crate::utils::file_handler::FileHandlerError;
use crate::utils::file_handler::FileWrite;
use crate::utils::json::json_error_text;
use crate::utils::json::json_object_list_parsed;
use crate::utils::json::json_object_list_rendered;
use crate::utils::json::object_views;
use crate::utils::json::JsonObject;
use crate::utils::json::MemberView;
use crate::utils::search::first_where;
use crate::utils::search::lemma_first_where;

verus! {

/// Why the registry could not do what it was asked.
#[derive(Debug)]
pub enum ConnectionManagerError {
    /// A file was asked for and no path was given.
    NoFilePathGiven,
    /// A record could not be read as a connection.
    MalformedData,
    /// The connection is stored already, in one direction or the other.
    DuplicateConnection,
    /// No stored connection equals the one given.
    ConnectionNotFoundError,
    /// The stored document could not be written; the text says why. What is
    /// in memory is as the operation left it.
    FileOperationError(String),
    /// The settings could not be read.
    JsonSerializationError(serde_json::Error),
    /// The document to store could not be made.
    FileHandlerError(FileHandlerError),
}

impl ConnectionManagerError {
    /// What the error says, for whoever reads it. For an error that wraps
    /// another the text goes on with what the other said.
    pub fn message(&self) -> (text: String)
        ensures
            match *self {
                ConnectionManagerError::NoFilePathGiven => text@ == "No file path given"@,
                ConnectionManagerError::MalformedData => text@ == "Malformed data"@,
                ConnectionManagerError::DuplicateConnection => text@ == "Duplicate Connection"@,
                ConnectionManagerError::ConnectionNotFoundError => text@ == "Connection not found"@,
                ConnectionManagerError::FileOperationError(reason) => text@ == "File error: "@
                    + reason@,
                ConnectionManagerError::JsonSerializationError(_) => "JSON error: "@.is_prefix_of(
                    text@,
                ),
                ConnectionManagerError::FileHandlerError(_) => "File handler error: "@.is_prefix_of(
                    text@,
                ),
            },
    {
        match self {
            ConnectionManagerError::NoFilePathGiven => String::from_str("No file path given"),
            ConnectionManagerError::MalformedData => String::from_str("Malformed data"),
            ConnectionManagerError::DuplicateConnection => String::from_str("Duplicate Connection"),
            ConnectionManagerError::ConnectionNotFoundError => String::from_str(
                "Connection not found",
            ),
            ConnectionManagerError::FileOperationError(reason) => String::from_str(
                "File error: ",
            ).concat(reason.as_str()),
            ConnectionManagerError::JsonSerializationError(error) => String::from_str(
                "JSON error: ",
            ).concat(json_error_text(error).as_str()),
            ConnectionManagerError::FileHandlerError(error) => String::from_str(
                "File handler error: ",
            ).concat(error.message().as_str()),
        }
    }
}

/// The index of the first connection of `list` that joins the two terminals,
/// or the length of `list` where none does.
pub open spec fn position_of(list: Seq<ConnectionView>, one: TerminalView, other: TerminalView) -> int {
    first_where(list, |wire: ConnectionView| wire.joins(one, other), 0)
}

/// Some connection of `list` joins the two terminals.
pub open spec fn holds(list: Seq<ConnectionView>, one: TerminalView, other: TerminalView) -> bool {
    position_of(list, one, other) < list.len()
}

/// The index of the first connection of `list` with the identifier, or the
/// length of `list` where none has it.
pub open spec fn position_of_uuid(list: Seq<ConnectionView>, uuid: u128) -> int {
    first_where(list, |wire: ConnectionView| wire.uuid == uuid, 0)
}

/// No two connections of `list` are equal.
pub open spec fn duplicate_free(list: Seq<ConnectionView>) -> bool {
    forall|i: int, j: int| 0 <= i < j < list.len() ==> !(#[trigger] list[i]).same_wire(#[trigger] list[j])
}

/// Every connection of `part` has an equal one in `whole`.
pub open spec fn covered_by(part: Seq<ConnectionView>, whole: Seq<ConnectionView>) -> bool {
    forall|i: int|
        0 <= i < part.len() ==> holds(whole, (#[trigger] part[i]).source(), part[i].destination())
}

/// The two lists hold the same connections, as sets under the equality of
/// connections: each connection of one has an equal one in the other.
pub open spec fn same_connections(one: Seq<ConnectionView>, other: Seq<ConnectionView>) -> bool {
    covered_by(one, other) && covered_by(other, one)
}

/// A list holds a connection between two terminals exactly when one of its
/// connections joins them.
pub proof fn lemma_holds(list: Seq<ConnectionView>, one: TerminalView, other: TerminalView)
    ensures
        holds(list, one, other) <==> exists|i: int|
            0 <= i < list.len() && (#[trigger] list[i]).joins(one, other),
        holds(list, one, other) ==> list[position_of(list, one, other)].joins(one, other),
        0 <= position_of(list, one, other) <= list.len(),
        forall|i: int| 0 <= i < position_of(list, one, other) ==> !(#[trigger] list[i]).joins(one, other),
{
    lemma_first_where(list, |wire: ConnectionView| wire.joins(one, other), 0);
}

/// A list without equal connections stays so when a connection is placed
/// behind the others that equals none of them.
pub proof fn lemma_push_keeps_duplicate_free(list: Seq<ConnectionView>, wire: ConnectionView)
    requires
        duplicate_free(list),
        !holds(list, wire.source(), wire.destination()),
    ensures
        duplicate_free(list.push(wire)),
{
    lemma_holds(list, wire.source(), wire.destination());
    let longer = list.push(wire);
    assert forall|i: int, j: int| 0 <= i < j < longer.len() implies !(#[trigger] longer[i]).same_wire(
        #[trigger] longer[j],
    ) by {
        if j == list.len() {
            assert(!list[i].joins(wire.source(), wire.destination()));
        } else {
            assert(!list[i].same_wire(list[j]));
        }
    }
}

/// A list without equal connections stays so when a connection is removed.
pub proof fn lemma_remove_keeps_duplicate_free(list: Seq<ConnectionView>, at: int)
    requires
        duplicate_free(list),
        0 <= at < list.len(),
    ensures
        duplicate_free(list.remove(at)),
{
    let shorter = list.remove(at);
    assert forall|i: int, j: int| 0 <= i < j < shorter.len() implies !(
    #[trigger] shorter[i]).same_wire(#[trigger] shorter[j]) by {
        let from = if i < at {
            i
        } else {
            i + 1
        };
        let to = if j < at {
            j
        } else {
            j + 1
        };
        assert(!list[from].same_wire(list[to]));
    }
}

/// The first connection with an identifier lies within the list or at its
/// length, has the identifier, and none before it has.
pub proof fn lemma_position_of_uuid(list: Seq<ConnectionView>, uuid: u128)
    ensures
        0 <= position_of_uuid(list, uuid) <= list.len(),
        position_of_uuid(list, uuid) < list.len() ==> list[position_of_uuid(list, uuid)].uuid
            == uuid,
        forall|i: int| 0 <= i < position_of_uuid(list, uuid) ==> (#[trigger] list[i]).uuid != uuid,
{
    lemma_first_where(list, |wire: ConnectionView| wire.uuid == uuid, 0);
}

/// The list without its later copies: a connection stays unless an equal one
/// stays before it.
pub open spec fn first_of_each(list: Seq<ConnectionView>) -> Seq<ConnectionView>
    decreases list.len(),
{
    if list.len() == 0 {
        list
    } else {
        let earlier = first_of_each(list.drop_last());
        if holds(earlier, list.last().source(), list.last().destination()) {
            earlier
        } else {
            earlier.push(list.last())
        }
    }
}

/// `first_of_each` leaves no two equal connections, and leaves a list
/// without equal connections as it is.
pub proof fn lemma_first_of_each(list: Seq<ConnectionView>)
    ensures
        duplicate_free(first_of_each(list)),
        duplicate_free(list) ==> first_of_each(list) == list,
    decreases list.len(),
{
    if list.len() > 0 {
        let shorter = list.drop_last();
        lemma_first_of_each(shorter);
        let earlier = first_of_each(shorter);
        let last = list.last();
        lemma_holds(earlier, last.source(), last.destination());
        if !holds(earlier, last.source(), last.destination()) {
            lemma_push_keeps_duplicate_free(earlier, last);
        }
        if duplicate_free(list) {
            assert forall|i: int, j: int| 0 <= i < j < shorter.len() implies !(
            #[trigger] shorter[i]).same_wire(#[trigger] shorter[j]) by {
                assert(!list[i].same_wire(list[j]));
            }
            assert forall|i: int| 0 <= i < shorter.len() implies !(#[trigger] shorter[i]).joins(
                last.source(),
                last.destination(),
            ) by {
                assert(!list[i].same_wire(list[list.len() - 1]));
            }
            assert(shorter.push(last) =~= list);
        }
    }
}

/// Two records hold the texts of equal connections.
pub open spec fn equal_records(one: Seq<MemberView>, other: Seq<MemberView>) -> bool {
    match (record_texts(one), record_texts(other)) {
        (Some(a), Some(b)) => a == b || a == (b.1, b.0),
        _ => false,
    }
}

/// No two records of the list hold the texts of equal connections.
pub open spec fn distinct_records(records: Seq<Seq<MemberView>>) -> bool {
    forall|i: int, j: int|
        0 <= i < j < records.len() ==> !equal_records(#[trigger] records[i], #[trigger] records[j])
}

/// The list as it is where `at` is no index of it, and without the
/// connection at `at` where it is one.
pub open spec fn without(list: Seq<ConnectionView>, at: int) -> Seq<ConnectionView> {
    if 0 <= at < list.len() {
        list.remove(at)
    } else {
        list
    }
}

/// The fields of the line that is exported for a connection.
pub open spec fn csv_fields(wire: ConnectionView) -> Seq<Seq<char>> {
    seq![
        wire.src_component,
        wire.src_terminal_block,
        wire.src_terminal,
        wire.dst_component,
        wire.dst_terminal_block,
        wire.dst_terminal,
    ]
}

/// The lines that are exported for a list of connections.
pub open spec fn csv_records(list: Seq<ConnectionView>) -> Seq<Seq<Seq<char>>> {
    list.map_values(|wire: ConnectionView| csv_fields(wire))
}

/// The records that are stored for a list of connections.
pub open spec fn stored_records(list: Seq<ConnectionView>) -> Seq<Seq<MemberView>> {
    list.map_values(|wire: ConnectionView| record_of(wire))
}

/// The registry of connections. No two of its connections are equal: that
/// is an invariant of the type, which [`ConnectionManager::valid`] states.
#[derive(Debug)]
pub struct ConnectionManager {
    connections: Vec<Connection>,
    settings: Settings,
    file_handler: FileHandler,
    output_file_name: String,
    settings_file_name: String,
    unsaved: bool,
}

/// What the registry was made with, and keeps: its settings and its paths.
pub struct SetupView {
    pub settings: SettingsView,
    pub source_path: Option<Seq<char>>,
    pub output_path: Seq<char>,
    pub settings_path: Seq<char>,
}

/// What a [`ConnectionManager`] is to a contract.
pub struct ConnectionManagerView {
    /// The connections, in the order in which they were added.
    pub connections: Seq<ConnectionView>,
    /// A change has succeeded that the stored document does not show yet.
    pub unsaved: bool,
    /// What the registry was made with.
    pub setup: SetupView,
}

impl View for ConnectionManager {
    type V = ConnectionManagerView;

    closed spec fn view(&self) -> ConnectionManagerView {
        ConnectionManagerView {
            connections: wires(self.connections@),
            unsaved: self.unsaved,
            setup: SetupView {
                settings: self.settings@,
                source_path: self.file_handler.path(),
                output_path: self.output_file_name@,
                settings_path: self.settings_file_name@,
            },
        }
    }
}

/// The index of the first connection of the list that equals `connection`,
/// or the length of the list where none does.
fn position_in(list: &Vec<Connection>, connection: &Connection) -> (at: usize)
    ensures
        at == position_of(wires(list@), connection@.source(), connection@.destination()),
{
    let ghost wanted = |wire: ConnectionView|
        wire.joins(connection@.source(), connection@.destination());
    let mut at: usize = 0;
    while at < list.len()
        invariant
            at <= list.len(),
            wanted == |wire: ConnectionView|
                wire.joins(connection@.source(), connection@.destination()),
            first_where(wires(list@), wanted, 0) == first_where(wires(list@), wanted, at as int),
        decreases list.len() - at,
    {
        if list[at] == *connection {
            return at;
        }
        at = at + 1;
    }
    at
}

/// A copy of the list without its later copies.
fn keep_first_of_each(list: &Vec<Connection>) -> (kept: Vec<Connection>)
    ensures
        wires(kept@) == first_of_each(wires(list@)),
{
    let mut kept: Vec<Connection> = Vec::new();
    let mut at: usize = 0;
    assert(wires(list@).take(0) =~= Seq::<ConnectionView>::empty());
    assert(wires(kept@) =~= Seq::<ConnectionView>::empty());
    while at < list.len()
        invariant
            at <= list.len(),
            wires(kept@) == first_of_each(wires(list@).take(at as int)),
        decreases list.len() - at,
    {
        let ghost earlier = wires(kept@);
        proof {
            let longer = wires(list@).take(at + 1);
            assert(longer.drop_last() =~= wires(list@).take(at as int));
            assert(longer.last() == list@[at as int]@);
            assert(first_of_each(longer) == if holds(
                earlier,
                longer.last().source(),
                longer.last().destination(),
            ) {
                earlier
            } else {
                earlier.push(longer.last())
            });
        }
        proof {
            lemma_holds(earlier, list@[at as int]@.source(), list@[at as int]@.destination());
        }
        if position_in(&kept, &list[at]) == kept.len() {
            let copy = list[at].clone();
            kept.push(copy);
            assert(wires(kept@) =~= earlier.push(list@[at as int]@));
        }
        at = at + 1;
    }
    proof {
        assert(wires(list@).take(at as int) =~= wires(list@));
    }
    kept
}

impl ConnectionManager {
    /// The connections, in the order in which they were added.
    pub open spec fn wires(&self) -> Seq<ConnectionView> {
        self@.connections
    }

    /// A change has succeeded that the stored document does not show yet.
    pub open spec fn unsaved(&self) -> bool {
        self@.unsaved
    }

    /// Settings and paths are those of `other`.
    pub open spec fn same_setup(&self, other: &ConnectionManager) -> bool {
        self@.setup == other@.setup
    }

    /// No two stored connections are equal. This holds of every registry.
    #[verifier::type_invariant]
    pub open spec fn valid(&self) -> bool {
        duplicate_free(self.wires())
    }

    /// A registry that stores its connections at `output_file_name`.
    ///
    /// `settings_contents` is the text of the settings file, `None` where
    /// there is no such file. `wire_contents` is the text of the file at
    /// `wire_label_path_name`, `None` where it could not be read. Connections
    /// that cannot be loaded are no reason to fail: the registry is then
    /// empty. Only unreadable settings are. Where the file holds equal
    /// connections, the first of them is kept and the later ones are left
    /// out.
    pub fn new(
        wire_label_path_name: Option<String>,
        output_file_name: String,
        settings_file_name: String,
        settings_contents: Option<&str>,
        wire_contents: Option<&str>,
    ) -> (made: Result<ConnectionManager, ConnectionManagerError>)
        ensures
            made is Ok <==> (settings_contents matches Some(text) ==> settings_read(text@) is Some),
            made matches Err(error) ==> error is JsonSerializationError,
            made matches Ok(manager) ==> {
                &&& !manager.unsaved()
                &&& manager@.setup == (SetupView {
                    settings: match settings_contents {
                        Some(text) => settings_read(text@)->0,
                        None => default_settings(),
                    },
                    source_path: wire_label_path_name.deep_view(),
                    output_path: output_file_name@,
                    settings_path: settings_file_name@,
                })
                &&& duplicate_free(manager.wires())
                &&& match loadable(wire_label_path_name.deep_view(), wire_contents.deep_view()) {
                    Some(records) => {
                        &&& exists|read: Seq<ConnectionView>|
                            read_as_list(records, read) && manager.wires() == #[trigger] first_of_each(
                                read,
                            )
                        &&& distinct_records(records) ==> read_as_list(records, manager.wires())
                    },
                    None => manager.wires().len() == 0,
                }
            },
    {
        let settings = match Settings::new(settings_contents) {
            Ok(settings) => settings,
            Err(error) => { return Err(ConnectionManagerError::JsonSerializationError(error)); },
        };
        let file_handler = FileHandler::new(wire_label_path_name.clone());
        let mut connections: Vec<Connection> = Vec::new();
        assert(wires(connections@) =~= Seq::<ConnectionView>::empty());
        if wire_label_path_name.is_some() {
            match wire_contents {
                Some(text) => {
                    match file_handler.load_wires(text) {
                        Ok(list) => {
                            connections = keep_first_of_each(&list);
                            proof {
                                let records = json_object_list_parsed(text@)->0;
                                let read = wires(list@);
                                lemma_first_of_each(read);
                                assert(wires(connections@) == first_of_each(read));
                                if distinct_records(records) {
                                    assert forall|i: int, j: int|
                                        0 <= i < j < read.len() implies !(#[trigger] read[i]).same_wire(
                                        #[trigger] read[j],
                                    ) by {
                                        assert(!equal_records(records[i], records[j]));
                                    }
                                }
                            }
                        },
                        Err(_) => {},
                    }
                },
                None => {},
            }
        }
        Ok(
            ConnectionManager {
                connections,
                settings,
                file_handler,
                output_file_name,
                settings_file_name,
                unsaved: false,
            },
        )
    }

    /// The index of the first stored connection that equals `connection`, or
    /// the number of stored connections where none does.
    pub fn position(&self, connection: &Connection) -> (at: usize)
        ensures
            at == position_of(self.wires(), connection@.source(), connection@.destination()),
            duplicate_free(self.wires()),
    {
        proof {
            use_type_invariant(self);
        }
        position_in(&self.connections, connection)
    }

    /// Whether a stored connection other than the one at `at` equals
    /// `connection`.
    pub fn holds_besides(&self, at: usize, connection: &Connection) -> (found: bool)
        ensures
            found == holds(
                without(self.wires(), at as int),
                connection@.source(),
                connection@.destination(),
            ),
            duplicate_free(self.wires()),
    {
        proof {
            use_type_invariant(self);
        }
        let ghost others = without(self.wires(), at as int);
        let mut next: usize = 0;
        while next < self.connections.len()
            invariant
                next <= self.connections.len(),
                duplicate_free(self.wires()),
                others == without(self.wires(), at as int),
                forall|i: int|
                    0 <= i < next && i != at ==> !(#[trigger] self.wires()[i]).joins(
                        connection@.source(),
                        connection@.destination(),
                    ),
            decreases self.connections.len() - next,
        {
            if next != at && self.connections[next] == *connection {
                proof {
                    lemma_holds(others, connection@.source(), connection@.destination());
                    let place = if next < at {
                        next as int
                    } else if at < self.connections.len() {
                        next - 1
                    } else {
                        next as int
                    };
                    assert(others[place] == self.wires()[next as int]);
                }
                return true;
            }
            next = next + 1;
        }
        proof {
            lemma_holds(others, connection@.source(), connection@.destination());
            assert forall|i: int| 0 <= i < others.len() implies !(#[trigger] others[i]).joins(
                connection@.source(),
                connection@.destination(),
            ) by {
                let from = if at < self.connections.len() && i >= at {
                    i + 1
                } else {
                    i
                };
                assert(others[i] == self.wires()[from]);
            }
        }
        false
    }

    /// The index of the first stored connection with the identifier, or the
    /// number of stored connections where none has it.
    pub fn position_by_uuid(&self, uuid: u128) -> (at: usize)
        ensures
            at == position_of_uuid(self.wires(), uuid),
            duplicate_free(self.wires()),
    {
        proof {
            use_type_invariant(self);
        }
        let ghost wanted = |wire: ConnectionView| wire.uuid == uuid;
        let mut at: usize = 0;
        while at < self.connections.len()
            invariant
                at <= self.connections.len(),
                duplicate_free(self.wires()),
                wanted == |wire: ConnectionView| wire.uuid == uuid,
                first_where(self.wires(), wanted, 0) == first_where(self.wires(), wanted, at as int),
            decreases self.connections.len() - at,
        {
            if self.connections[at].uuid == uuid {
                return at;
            }
            at = at + 1;
        }
        at
    }

    /// The number of stored connections.
    pub fn len(&self) -> (count: usize)
        ensures
            count == self.wires().len(),
            duplicate_free(self.wires()),
    {
        proof {
            use_type_invariant(self);
        }
        self.connections.len()
    }

    /// The settings that the registry was made with.
    pub fn settings(&self) -> (settings: &Settings)
        ensures
            settings@ == self@.setup.settings,
    {
        &self.settings
    }

    /// The stored connection at `at`.
    pub(crate) fn connection_at(&self, at: usize) -> (connection: &Connection)
        requires
            at < self.wires().len(),
        ensures
            connection@ == self.wires()[at as int],
    {
        &self.connections[at]
    }

    /// Takes the stored connection at `at` out of the registry.
    pub(crate) fn remove_at(&mut self, at: usize) -> (connection: Connection)
        requires
            at < old(self).wires().len(),
        ensures
            connection@ == old(self).wires()[at as int],
            final(self).wires() == old(self).wires().remove(at as int),
            final(self).unsaved(),
            final(self).same_setup(old(self)),
            duplicate_free(old(self).wires()),
            duplicate_free(final(self).wires()),
    {
        proof {
            use_type_invariant(&*self);
        }
        let ghost before = self.wires();
        let mut list: Vec<Connection> = Vec::new();
        assert(wires(list@) =~= Seq::<ConnectionView>::empty());
        core::mem::swap(&mut self.connections, &mut list);
        let connection = list.remove(at);
        proof {
            assert(wires(list@) =~= before.remove(at as int));
            lemma_remove_keeps_duplicate_free(before, at as int);
        }
        self.connections = list;
        self.unsaved = true;
        connection
    }

    /// Stores `connection` behind the others. No stored connection may equal
    /// it.
    pub(crate) fn push(&mut self, connection: Connection)
        requires
            !holds(old(self).wires(), connection@.source(), connection@.destination()),
        ensures
            final(self).wires() == old(self).wires().push(connection@),
            final(self).unsaved(),
            final(self).same_setup(old(self)),
            duplicate_free(old(self).wires()),
            duplicate_free(final(self).wires()),
    {
        proof {
            use_type_invariant(&*self);
        }
        let ghost before = self.wires();
        let mut list: Vec<Connection> = Vec::new();
        assert(wires(list@) =~= Seq::<ConnectionView>::empty());
        core::mem::swap(&mut self.connections, &mut list);
        list.push(connection);
        proof {
            assert(wires(list@) =~= before.push(connection@));
            lemma_push_keeps_duplicate_free(before, connection@);
        }
        self.connections = list;
        self.unsaved = true;
    }

    /// Replaces the stored connections by those of the records, in their
    /// order. The first record that cannot be read, or that holds a
    /// connection equal to one before it, stops the work and is reported;
    /// the connections before it stay, and those stored until now are gone.
    pub fn populate_connections(&mut self, conn_dicts: Vec<JsonObject>) -> (populated: Result<
        (),
        ConnectionManagerError,
    >)
        ensures
            final(self).same_setup(old(self)),
            final(self).wires().len() <= conn_dicts.len(),
            read_as_list(
                object_views(conn_dicts@).take(final(self).wires().len() as int),
                final(self).wires(),
            ),
            duplicate_free(final(self).wires()),
            ({
                let records = object_views(conn_dicts@);
                let stop = final(self).wires().len() as int;
                match populated {
                    Ok(_) => stop == records.len() && final(self).unsaved(),
                    Err(ConnectionManagerError::MalformedData) => {
                        &&& stop < records.len()
                        &&& !record_readable(records[stop])
                        &&& final(self).unsaved() == old(self).unsaved()
                    },
                    Err(ConnectionManagerError::DuplicateConnection) => {
                        &&& stop < records.len()
                        &&& record_readable(records[stop])
                        &&& record_texts(records[stop]) matches Some((source, destination))
                            && holds(final(self).wires(), source, destination)
                        &&& final(self).unsaved() == old(self).unsaved()
                    },
                    Err(_) => false,
                }
            }),
    {
        let ghost records = object_views(conn_dicts@);
        let mut list: Vec<Connection> = Vec::new();
        let mut failure: Option<ConnectionManagerError> = None;
        let mut at: usize = 0;
        assert(wires(list@) =~= Seq::<ConnectionView>::empty());
        while at < conn_dicts.len() && failure.is_none()
            invariant
                at <= conn_dicts.len(),
                records == object_views(conn_dicts@),
                read_as_list(records.take(wires(list@).len() as int), wires(list@)),
                duplicate_free(wires(list@)),
                match failure {
                    None => wires(list@).len() == at,
                    Some(ConnectionManagerError::MalformedData) => {
                        &&& wires(list@).len() < records.len()
                        &&& !record_readable(records[wires(list@).len() as int])
                    },
                    Some(ConnectionManagerError::DuplicateConnection) => {
                        &&& wires(list@).len() < records.len()
                        &&& record_readable(records[wires(list@).len() as int])
                        &&& record_texts(records[wires(list@).len() as int]) matches Some(
                            (source, destination),
                        ) && holds(wires(list@), source, destination)
                    },
                    Some(_) => false,
                },
            decreases conn_dicts.len() - at + (if failure is None { 1int } else { 0int }),
        {
            let ghost before = wires(list@);
            assert(records[at as int] == conn_dicts@[at as int]@);
            match Connection::from_json_value(&conn_dicts[at]) {
                Ok(connection) => {
                    if position_in(&list, &connection) < list.len() {
                        failure = Some(ConnectionManagerError::DuplicateConnection);
                    } else {
                        list.push(connection);
                        proof {
                            assert(wires(list@) =~= before.push(connection@));
                            let longer = records.take(at + 1);
                            assert forall|i: int| 0 <= i < longer.len() implies reads_as(
                                #[trigger] longer[i],
                                wires(list@)[i],
                            ) by {
                                if i < at {
                                    assert(longer[i] == records.take(at as int)[i]);
                                }
                            }
                            lemma_push_keeps_duplicate_free(before, connection@);
                        }
                        at = at + 1;
                    }
                },
                Err(_) => {
                    failure = Some(ConnectionManagerError::MalformedData);
                },
            }
        }
        proof {
            if failure is None {
                assert(records.take(at as int) =~= records);
            }
        }
        self.connections = list;
        match failure {
            Some(error) => Err(error),
            None => {
                self.unsaved = true;
                Ok(())
            },
        }
    }

    /// Removes the first stored connection that equals the one given.
    /// Where none does, nothing changes.
    pub fn delete_connection(&mut self, connection_to_delete: &Connection) -> (deleted: Result<
        (),
        ConnectionManagerError,
    >)
        ensures
            ({
                let before = old(self).wires();
                let at = position_of(
                    before,
                    connection_to_delete@.source(),
                    connection_to_delete@.destination(),
                );
                if at < before.len() {
                    &&& deleted is Ok
                    &&& final(self).wires() == before.remove(at)
                    &&& final(self).unsaved()
                    &&& final(self).same_setup(old(self))
                } else {
                    &&& deleted matches Err(ConnectionManagerError::ConnectionNotFoundError)
                    &&& final(self)@ == old(self)@
                }
            }),
            duplicate_free(old(self).wires()),
            duplicate_free(final(self).wires()),
    {
        let at = self.position(connection_to_delete);
        if at < self.connections.len() {
            let _ = self.remove_at(at);
            Ok(())
        } else {
            Err(ConnectionManagerError::ConnectionNotFoundError)
        }
    }

    /// The labels of the two ends of `connection`, where the registry holds a
    /// connection equal to it.
    pub fn get_connection_tuple(self, connection: &Connection) -> (labels: Result<
        (String, String),
        ConnectionManagerError,
    >)
        ensures
            holds(self.wires(), connection@.source(), connection@.destination()) ==> {
                &&& labels matches Ok(pair)
                &&& pair.0@ == crate::models::connection::label(connection@.source())
                &&& pair.1@ == crate::models::connection::label(connection@.destination())
            },
            !holds(self.wires(), connection@.source(), connection@.destination()) ==> labels matches Err(
                ConnectionManagerError::ConnectionNotFoundError,
            ),
    {
        if self.position(connection) < self.connections.len() {
            Ok(connection.to_tuple())
        } else {
            Err(ConnectionManagerError::ConnectionNotFoundError)
        }
    }

    /// The stored connections, in their order. No two of them are equal.
    pub fn get_connections(&self) -> (list: &Vec<Connection>)
        ensures
            wires(list@) == self.wires(),
            duplicate_free(self.wires()),
    {
        proof {
            use_type_invariant(self);
        }
        &self.connections
    }

    /// Adds the connection between the two terminals given, with a fresh
    /// identifier, unless the registry holds an equal one, in either
    /// direction: then nothing changes.
    pub fn add_connection(
        &mut self,
        src_component: String,
        src_terminal_block: String,
        src_terminal: String,
        dst_component: String,
        dst_terminal_block: String,
        dst_terminal: String,
    ) -> (added: Result<Connection, ConnectionManagerError>)
        ensures
            ({
                let source = (src_component@, src_terminal_block@, src_terminal@);
                let destination = (dst_component@, dst_terminal_block@, dst_terminal@);
                if holds(old(self).wires(), source, destination) {
                    &&& added matches Err(ConnectionManagerError::DuplicateConnection)
                    &&& final(self)@ == old(self)@
                } else {
                    &&& added matches Ok(connection)
                    &&& connection@.fields() == (source, destination)
                    &&& final(self).wires() == old(self).wires().push(connection@)
                    &&& final(self).unsaved()
                    &&& final(self).same_setup(old(self))
                }
            }),
            duplicate_free(old(self).wires()),
            duplicate_free(final(self).wires()),
    {
        let connection = Connection::new(
            src_component,
            src_terminal_block,
            src_terminal,
            dst_component,
            dst_terminal_block,
            dst_terminal,
        );
        if self.position(&connection) < self.connections.len() {
            return Err(ConnectionManagerError::DuplicateConnection);
        }
        self.push(connection.clone());
        Ok(connection)
    }

    /// The stored connections as delimited text: one line for each, in their
    /// order, with the six texts in the order source before destination.
    /// The `csv` crate writes the lines; where what it writes is no text, the
    /// call fails.
    pub fn generate_csv_string(&self, delimiter: u8) -> (text: Result<String, csv::Error>)
        ensures
            match csv_text(csv_records(self.wires()), delimiter) {
                Some(lines) => text matches Ok(got) && got@ == lines,
                None => text is Err,
            },
    {
        let mut writer = new_writer(delimiter);
        let mut at: usize = 0;
        while at < self.connections.len()
            invariant
                at <= self.connections.len(),
                writer_delimiter(writer) == delimiter,
                written_records(writer) == csv_records(self.wires()).take(at as int),
            decreases self.connections.len() - at,
        {
            let connection = &self.connections[at];
            let mut record: Vec<String> = Vec::new();
            record.push(connection.src_component.clone());
            record.push(connection.src_terminal_block.clone());
            record.push(connection.src_terminal.clone());
            record.push(connection.dst_component.clone());
            record.push(connection.dst_terminal_block.clone());
            record.push(connection.dst_terminal.clone());
            proof {
                assert(field_views(record@) =~= csv_fields(connection@));
                assert(csv_records(self.wires())[at as int] == csv_fields(connection@));
                if at > 0 {
                    assert(written_records(writer)[0] == csv_records(self.wires())[0]);
                }
            }
            let ghost earlier = written_records(writer);
            match write_record(&mut writer, &record) {
                Ok(_) => {},
                Err(error) => { return Err(error); },
            }
            proof {
                assert(earlier.push(csv_fields(connection@)) =~= csv_records(self.wires()).take(
                    at + 1,
                ));
            }
            at = at + 1;
        }
        proof {
            assert(csv_records(self.wires()).take(at as int) =~= csv_records(self.wires()));
        }
        into_text(writer)
    }

    /// Whether a change has succeeded that the stored document does not show
    /// yet.
    pub fn has_unsaved_changes(&self) -> (unsaved: bool)
        ensures
            unsaved == self.unsaved(),
    {
        self.unsaved
    }

    /// What to write so that the stored document holds the connections as
    /// they are now: the records of the connections, in their order and
    /// without identifiers, as one JSON array at the output path.
    pub fn save_json_to_file(&self) -> (write: Result<FileWrite, ConnectionManagerError>)
        ensures
            write matches Ok(file) && file.path@ == self@.setup.output_path && file.contents@
                == json_object_list_rendered(stored_records(self.wires())),
    {
        let mut data: Vec<JsonObject> = Vec::new();
        let mut at: usize = 0;
        while at < self.connections.len()
            invariant
                at <= self.connections.len(),
                object_views(data@) == stored_records(self.wires()).take(at as int),
            decreases self.connections.len() - at,
        {
            let ghost earlier = object_views(data@);
            let record = self.connections[at].to_dict();
            data.push(record);
            proof {
                assert(object_views(data@) =~= earlier.push(record@));
                assert(earlier.push(record@) =~= stored_records(self.wires()).take(at + 1));
            }
            at = at + 1;
        }
        proof {
            assert(stored_records(self.wires()).take(at as int) =~= stored_records(self.wires()));
        }
        match self.file_handler.save_to_path(&data, &self.output_file_name) {
            Ok(file) => Ok(file),
            Err(error) => Err(ConnectionManagerError::FileHandlerError(error)),
        }
    }

    /// Takes note of how the writing of the stored document went. Once it is
    /// written nothing is unsaved. A failure is handed back as the error of
    /// the registry; the connections stay as they are, and stay unsaved.
    pub fn file_written(&mut self, outcome: Result<(), String>) -> (noted: Result<
        (),
        ConnectionManagerError,
    >)
        ensures
            final(self).wires() == old(self).wires(),
            final(self).same_setup(old(self)),
            match outcome {
                Ok(_) => noted is Ok && !final(self).unsaved(),
                Err(reason) => {
                    &&& noted matches Err(ConnectionManagerError::FileOperationError(text))
                    &&& text == reason
                    &&& final(self)@ == old(self)@
                },
            },
    {
        proof {
            use_type_invariant(&*self);
        }
        match outcome {
            Ok(_) => {
                self.unsaved = false;
                Ok(())
            },
            Err(reason) => Err(ConnectionManagerError::FileOperationError(reason)),
        }
    }
}

/// The records that are loaded when a registry is made: those of the file,
/// where a path was given, the file was read, and its text is a list of
/// records that can all be read as connections.
pub open spec fn loadable(path: Option<Seq<char>>, contents: Option<Seq<char>>) -> Option<
    Seq<Seq<MemberView>>,
> {
    match (path, contents) {
        (Some(_), Some(text)) => match json_object_list_parsed(text) {
            Some(records) => if all_readable(records) {
                Some(records)
            } else {
                None
            },
            None => None,
        },
        _ => None,
    }
}

} // verus!
