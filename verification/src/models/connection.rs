//! A wire connection: two terminals, each named by component, terminal block
//! and terminal, and an identifier that is drawn when the connection is made.

use vstd::prelude::*;
use vstd::std_specs::cmp::PartialEqSpecImpl;
use vstd::string::StringExecFns;
use vstd::string::StrSliceExecFns;
use crate::utils::json::json_error;
use crate::utils::json::member;
use crate::utils::json::member_text;
use crate::utils::json::JsonObject;
use crate::utils::json::MemberView;

verus! {

/// One end of a connection: component, terminal block, terminal.
pub type TerminalView = (Seq<char>, Seq<char>, Seq<char>);

/// What a [`Connection`] is to a contract: its six texts and its identifier.
pub struct ConnectionView {
    pub src_component: Seq<char>,
    pub src_terminal_block: Seq<char>,
    pub src_terminal: Seq<char>,
    pub dst_component: Seq<char>,
    pub dst_terminal_block: Seq<char>,
    pub dst_terminal: Seq<char>,
    pub uuid: u128,
}

impl ConnectionView {
    /// The source terminal.
    pub open spec fn source(self) -> TerminalView {
        (self.src_component, self.src_terminal_block, self.src_terminal)
    }

    /// The destination terminal.
    pub open spec fn destination(self) -> TerminalView {
        (self.dst_component, self.dst_terminal_block, self.dst_terminal)
    }

    /// The same connection with its two ends exchanged.
    pub open spec fn swapped(self) -> ConnectionView {
        ConnectionView {
            src_component: self.dst_component,
            src_terminal_block: self.dst_terminal_block,
            src_terminal: self.dst_terminal,
            dst_component: self.src_component,
            dst_terminal_block: self.src_terminal_block,
            dst_terminal: self.src_terminal,
            uuid: self.uuid,
        }
    }

    /// The six texts: the two terminals, source first.
    pub open spec fn fields(self) -> (TerminalView, TerminalView) {
        (self.source(), self.destination())
    }

    /// The connection joins the two terminals, whichever of them is its
    /// source. The identifier plays no part.
    pub open spec fn joins(self, one: TerminalView, other: TerminalView) -> bool {
        self.fields() == (one, other) || self.fields() == (other, one)
    }

    /// The two connections join the same pair of terminals, in either
    /// direction. This is the equality that `==` computes on connections.
    pub open spec fn same_wire(self, other: ConnectionView) -> bool {
        self.joins(other.source(), other.destination())
    }

    /// All six texts are empty.
    pub open spec fn blank(self) -> bool {
        self.src_component.len() == 0 && self.src_terminal_block.len() == 0
            && self.src_terminal.len() == 0 && self.dst_component.len() == 0
            && self.dst_terminal_block.len() == 0 && self.dst_terminal.len() == 0
    }
}

/// `text` without the run of `pad` characters at its end.
pub open spec fn trim_trailing(text: Seq<char>, pad: char) -> Seq<char>
    decreases text.len(),
{
    if text.len() > 0 && text.last() == pad {
        trim_trailing(text.drop_last(), pad)
    } else {
        text
    }
}

/// Component, terminal block and terminal joined by `-`.
pub open spec fn joined(terminal: TerminalView) -> Seq<char> {
    terminal.0 + "-"@ + terminal.1 + "-"@ + terminal.2
}

/// The label of a terminal: its three names joined by `-`, without the `-`
/// that names left empty at the end would leave dangling.
pub open spec fn label(terminal: TerminalView) -> Seq<char> {
    trim_trailing(joined(terminal), '-')
}

/// Equality of connections is equality of their six texts up to the exchange
/// of the two ends: `a == b` holds exactly when the texts agree as they stand
/// or after one connection is turned round.
pub proof fn lemma_equal_up_to_swap(a: ConnectionView, b: ConnectionView)
    ensures
        a.same_wire(b) <==> (a.fields() == b.fields() || a.fields() == b.swapped().fields()),
{
}

/// Every connection equals itself.
pub proof fn lemma_equal_reflexive(a: ConnectionView)
    ensures
        a.same_wire(a),
{
}

/// Equality of connections does not depend on which side is asked.
pub proof fn lemma_equal_symmetric(a: ConnectionView, b: ConnectionView)
    ensures
        a.same_wire(b) == b.same_wire(a),
{
}

/// Connections equal to a third are equal to each other.
pub proof fn lemma_equal_transitive(a: ConnectionView, b: ConnectionView, c: ConnectionView)
    requires
        a.same_wire(b),
        b.same_wire(c),
    ensures
        a.same_wire(c),
{
}

/// A connection between a source and a destination terminal.
#[derive(Debug)]
pub struct Connection {
    pub src_component: String,
    pub src_terminal_block: String,
    pub src_terminal: String,
    pub dst_component: String,
    pub dst_terminal_block: String,
    pub dst_terminal: String,
    pub uuid: u128,
}

impl View for Connection {
    type V = ConnectionView;

    open spec fn view(&self) -> ConnectionView {
        ConnectionView {
            src_component: self.src_component@,
            src_terminal_block: self.src_terminal_block@,
            src_terminal: self.src_terminal@,
            dst_component: self.dst_component@,
            dst_terminal_block: self.dst_terminal_block@,
            dst_terminal: self.dst_terminal@,
            uuid: self.uuid,
        }
    }
}

/// The identifier that the text spells, as `uuid::Uuid::parse_str` reads it,
/// taken as a 128-bit number; `None` where the text spells none.
pub uninterp spec fn uuid_parsed(text: Seq<char>) -> Option<u128>;

/// The six texts of the connection that a record holds; `None` where one of
/// the six members is missing from the record or holds no text.
pub open spec fn record_texts(record: Seq<MemberView>) -> Option<(TerminalView, TerminalView)> {
    match (
        member_text(record, "src_component"@),
        member_text(record, "src_terminal_block"@),
        member_text(record, "src_terminal"@),
        member_text(record, "dst_component"@),
        member_text(record, "dst_terminal_block"@),
        member_text(record, "dst_terminal"@),
    ) {
        (Some(a), Some(b), Some(c), Some(d), Some(e), Some(f)) => Some(((a, b, c), (d, e, f))),
        _ => None,
    }
}

/// What a record says of the identifier: `Some(None)` where it has no member
/// `uuid`, so that one is to be drawn; `Some(Some(id))` where the member
/// spells `id`; `None` where the member is there and spells no identifier.
pub open spec fn record_uuid(record: Seq<MemberView>) -> Option<Option<u128>> {
    match member(record, "uuid"@) {
        None => Some(None),
        Some(None) => None,
        Some(Some(text)) => match uuid_parsed(text) {
            Some(id) => Some(Some(id)),
            None => None,
        },
    }
}

/// The record can be read as a connection.
pub open spec fn record_readable(record: Seq<MemberView>) -> bool {
    record_texts(record) is Some && record_uuid(record) is Some
}

/// `wire` is a connection that the record can be read as: it has the
/// record's six texts, and the record's identifier where the record has one,
/// else one drawn at random.
pub open spec fn reads_as(record: Seq<MemberView>, wire: ConnectionView) -> bool {
    &&& record_texts(record) == Some((wire.source(), wire.destination()))
    &&& match record_uuid(record) {
        Some(Some(id)) => wire.uuid == id,
        Some(None) => wire.uuid & ID_KIND_MASK == ID_KIND_RANDOM,
        None => false,
    }
}

/// The record of a connection: its six texts under their names. The
/// identifier is not written.
pub open spec fn record_of(wire: ConnectionView) -> Seq<MemberView> {
    seq![
        ("src_component"@, Some(wire.src_component)),
        ("src_terminal_block"@, Some(wire.src_terminal_block)),
        ("src_terminal"@, Some(wire.src_terminal)),
        ("dst_component"@, Some(wire.dst_component)),
        ("dst_terminal_block"@, Some(wire.dst_terminal_block)),
        ("dst_terminal"@, Some(wire.dst_terminal)),
    ]
}

/// The views of a list of connections.
pub open spec fn wires(connections: Seq<Connection>) -> Seq<ConnectionView> {
    connections.map_values(|connection: Connection| connection@)
}

/// Every record of the list can be read as a connection.
pub open spec fn all_readable(records: Seq<Seq<MemberView>>) -> bool {
    forall|i: int| 0 <= i < records.len() ==> record_readable(#[trigger] records[i])
}

/// `list` holds, record for record, a connection that the record can be read
/// as.
pub open spec fn read_as_list(records: Seq<Seq<MemberView>>, list: Seq<ConnectionView>) -> bool {
    &&& list.len() == records.len()
    &&& forall|i: int| 0 <= i < records.len() ==> reads_as(#[trigger] records[i], list[i])
}

/// The bits of an identifier that say how it was made: version and variant.
pub const ID_KIND_MASK: u128 = 0x0000_0000_0000_f000_c000_0000_0000_0000u128;

/// What those bits hold in an identifier that was drawn at random.
pub const ID_KIND_RANDOM: u128 = 0x0000_0000_0000_4000_8000_0000_0000_0000u128;

/// Draws an identifier with `uuid::Uuid::new_v4` and hands it out as the
/// 128-bit number that `Uuid::as_u128` gives. Nothing is known of the number
/// but the version and variant bits that every such identifier carries.
#[verifier::external_body]
fn fresh_id() -> (id: u128)
    ensures
        id & ID_KIND_MASK == ID_KIND_RANDOM,
{
    uuid::Uuid::new_v4().as_u128()
}

/// Reads an identifier with `uuid::Uuid::parse_str` and hands it out as the
/// number that `Uuid::as_u128` gives. The contract names the outcome.
#[verifier::external_body]
fn parse_id(text: &str) -> (id: Option<u128>)
    ensures
        id == uuid_parsed(text@),
{
    uuid::Uuid::parse_str(text).ok().map(|id| id.as_u128())
}

/// Copies `text` without the `-` characters at its end.
fn trim_end_dashes(text: &str) -> (trimmed: String)
    ensures
        trimmed@ == trim_trailing(text@, '-'),
{
    let mut keep: usize = text.unicode_len();
    assert(text@.subrange(0, keep as int) == text@);
    while keep > 0 && text.get_char(keep - 1) == '-'
        invariant
            keep <= text@.len(),
            trim_trailing(text@, '-') == trim_trailing(text@.subrange(0, keep as int), '-'),
        decreases keep,
    {
        proof {
            let head = text@.subrange(0, keep as int);
            assert(head.last() == '-');
            assert(head.drop_last() == text@.subrange(0, keep - 1));
        }
        keep = keep - 1;
    }
    proof {
        let head = text@.subrange(0, keep as int);
        assert(keep > 0 ==> head.last() != '-');
    }
    text.substring_char(0, keep).to_owned()
}

/// The label of the terminal whose three names are given.
fn terminal_label(component: &String, terminal_block: &String, terminal: &String) -> (text: String)
    ensures
        text@ == label((component@, terminal_block@, terminal@)),
{
    let mut whole = component.clone();
    whole.append("-");
    whole.append(terminal_block.as_str());
    whole.append("-");
    whole.append(terminal.as_str());
    trim_end_dashes(whole.as_str())
}

impl Connection {
    /// A connection with the six texts given and a freshly drawn identifier.
    pub fn new(
        src_component: String,
        src_terminal_block: String,
        src_terminal: String,
        dst_component: String,
        dst_terminal_block: String,
        dst_terminal: String,
    ) -> (connection: Connection)
        ensures
            connection@.src_component == src_component@,
            connection@.src_terminal_block == src_terminal_block@,
            connection@.src_terminal == src_terminal@,
            connection@.dst_component == dst_component@,
            connection@.dst_terminal_block == dst_terminal_block@,
            connection@.dst_terminal == dst_terminal@,
            connection@.uuid & ID_KIND_MASK == ID_KIND_RANDOM,
    {
        Connection::with_uuid(
            src_component,
            src_terminal_block,
            src_terminal,
            dst_component,
            dst_terminal_block,
            dst_terminal,
            fresh_id(),
        )
    }

    /// A connection with the six texts and the identifier given.
    pub fn with_uuid(
        src_component: String,
        src_terminal_block: String,
        src_terminal: String,
        dst_component: String,
        dst_terminal_block: String,
        dst_terminal: String,
        uuid: u128,
    ) -> (connection: Connection)
        ensures
            connection@ == (ConnectionView {
                src_component: src_component@,
                src_terminal_block: src_terminal_block@,
                src_terminal: src_terminal@,
                dst_component: dst_component@,
                dst_terminal_block: dst_terminal_block@,
                dst_terminal: dst_terminal@,
                uuid,
            }),
    {
        Connection {
            src_component,
            src_terminal_block,
            src_terminal,
            dst_component,
            dst_terminal_block,
            dst_terminal,
            uuid,
        }
    }

    /// The record of this connection: its six texts under their names, in
    /// the order source before destination. The identifier is left out.
    pub fn to_dict(&self) -> (record: JsonObject)
        ensures
            record@ == record_of(self@),
    {
        let mut members: Vec<(String, Option<String>)> = Vec::new();
        members.push((String::from_str("src_component"), Some(self.src_component.clone())));
        members.push(
            (String::from_str("src_terminal_block"), Some(self.src_terminal_block.clone())),
        );
        members.push((String::from_str("src_terminal"), Some(self.src_terminal.clone())));
        members.push((String::from_str("dst_component"), Some(self.dst_component.clone())));
        members.push(
            (String::from_str("dst_terminal_block"), Some(self.dst_terminal_block.clone())),
        );
        members.push((String::from_str("dst_terminal"), Some(self.dst_terminal.clone())));
        let record = JsonObject { members };
        assert(record@ =~= record_of(self@));
        record
    }

    /// Reads a connection from a record. The six texts must be there; the
    /// member `uuid` may be missing, and the identifier is then drawn afresh.
    pub fn from_json_value(value: &JsonObject) -> (read: Result<Connection, serde_json::Error>)
        ensures
            read is Ok <==> record_readable(value@),
            read matches Ok(connection) ==> reads_as(value@, connection@),
    {
        let src_component = value.required_text("src_component")?;
        let src_terminal_block = value.required_text("src_terminal_block")?;
        let src_terminal = value.required_text("src_terminal")?;
        let dst_component = value.required_text("dst_component")?;
        let dst_terminal_block = value.required_text("dst_terminal_block")?;
        let dst_terminal = value.required_text("dst_terminal")?;
        let uuid = match value.get("uuid") {
            None => default_uuid(),
            Some(None) => { return Err(json_error("the field uuid holds no text")); },
            Some(Some(text)) => match parse_id(text.as_str()) {
                Some(id) => id,
                None => { return Err(json_error("the field uuid holds no identifier")); },
            },
        };
        Ok(
            Connection::with_uuid(
                src_component,
                src_terminal_block,
                src_terminal,
                dst_component,
                dst_terminal_block,
                dst_terminal,
                uuid,
            ),
        )
    }

    /// Whether all six texts are empty.
    pub fn is_empty(&self) -> (empty: bool)
        ensures
            empty == self@.blank(),
    {
        self.src_component.as_str().is_empty() && self.src_terminal_block.as_str().is_empty()
            && self.src_terminal.as_str().is_empty() && self.dst_component.as_str().is_empty()
            && self.dst_terminal_block.as_str().is_empty() && self.dst_terminal.as_str().is_empty()
    }

    /// The labels of the two ends, source first.
    pub fn to_tuple(&self) -> (labels: (String, String))
        ensures
            labels.0@ == label(self@.source()),
            labels.1@ == label(self@.destination()),
    {
        (
            terminal_label(&self.src_component, &self.src_terminal_block, &self.src_terminal),
            terminal_label(&self.dst_component, &self.dst_terminal_block, &self.dst_terminal),
        )
    }
}

/// The identifier of a connection whose record names none.
fn default_uuid() -> (id: u128)
    ensures
        id & ID_KIND_MASK == ID_KIND_RANDOM,
{
    fresh_id()
}

impl Clone for Connection {
    fn clone(&self) -> (copy: Connection)
        ensures
            copy == *self,
    {
        Connection {
            src_component: self.src_component.clone(),
            src_terminal_block: self.src_terminal_block.clone(),
            src_terminal: self.src_terminal.clone(),
            dst_component: self.dst_component.clone(),
            dst_terminal_block: self.dst_terminal_block.clone(),
            dst_terminal: self.dst_terminal.clone(),
            uuid: self.uuid,
        }
    }
}

impl PartialEq for Connection {
    /// Whether the two connections join the same two terminals, whichever
    /// way round. The identifiers are not compared.
    fn eq(&self, other: &Connection) -> (equal: bool) {
        let forward = self.src_component == other.src_component
            && self.src_terminal_block == other.src_terminal_block
            && self.src_terminal == other.src_terminal
            && self.dst_component == other.dst_component
            && self.dst_terminal_block == other.dst_terminal_block
            && self.dst_terminal == other.dst_terminal;
        let reversed = self.src_component == other.dst_component
            && self.src_terminal_block == other.dst_terminal_block
            && self.src_terminal == other.dst_terminal
            && self.dst_component == other.src_component
            && self.dst_terminal_block == other.src_terminal_block
            && self.dst_terminal == other.src_terminal;
        forward || reversed
    }
}

impl PartialEqSpecImpl for Connection {
    open spec fn obeys_eq_spec() -> bool {
        true
    }

    /// What `==` computes: the two connections join the same two terminals.
    open spec fn eq_spec(&self, other: &Connection) -> bool {
        self@.same_wire(other@)
    }
}

} // verus!
