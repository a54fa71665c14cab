//! The two formats in which connections are exported as lines of text: one
//! line per connection, source before destination.

use vstd::prelude::*;
use vstd::string::StringExecFns;
use crate::models::connection::joined;
use crate::models::connection::wires;
use crate::models::connection::Connection;
use crate::models::connection::ConnectionView;
use crate::models::connection::TerminalView;

verus! {

/// The formats of an export.
#[derive(Debug, Clone, Copy, PartialEq, Eq)]
pub enum ExportFormat {
    /// Each terminal as `component-block-terminal`.
    Wire,
    /// Each terminal as `component-block [terminal]`.
    Cable,
}

/// A terminal in the wire format.
pub open spec fn wire_text(terminal: TerminalView) -> Seq<char> {
    joined(terminal)
}

/// A terminal in the cable format.
pub open spec fn cable_text(terminal: TerminalView) -> Seq<char> {
    terminal.0 + "-"@ + terminal.1 + " ["@ + terminal.2 + "]"@
}

/// The lines, with a line feed between one and the next.
pub open spec fn joined_lines(lines: Seq<Seq<char>>) -> Seq<char>
    decreases lines.len(),
{
    if lines.len() == 0 {
        Seq::empty()
    } else if lines.len() == 1 {
        lines[0]
    } else {
        joined_lines(lines.drop_last()) + "\n"@ + lines.last()
    }
}

/// The line of one exported row: source, delimiter, destination.
pub open spec fn row_line(row: (Seq<char>, Seq<char>), delimiter: Seq<char>) -> Seq<char> {
    row.0 + delimiter + row.1
}

/// The text of the rows of an export.
pub open spec fn rows_text(rows: Seq<(Seq<char>, Seq<char>)>, delimiter: Seq<char>) -> Seq<char> {
    joined_lines(rows.map_values(|row: (Seq<char>, Seq<char>)| row_line(row, delimiter)))
}

/// A way to write a terminal, and with it the rows and the text of an
/// export.
pub trait ExportToCsvStrategy {
    /// The terminal as the format writes it.
    spec fn terminal_text(&self, terminal: TerminalView) -> Seq<char>;

    /// The terminal as the format writes it.
    fn format_terminal(&self, component: &str, terminal_block: &str, terminal: &str) -> (text:
        String)
        ensures
            text@ == self.terminal_text((component@, terminal_block@, terminal@)),
    ;
}

/// The rows of an export in the format: for each connection its source and
/// its destination.
pub open spec fn export_rows<S: ExportToCsvStrategy>(strategy: &S, list: Seq<ConnectionView>) -> Seq<
    (Seq<char>, Seq<char>),
> {
    list.map_values(
        |wire: ConnectionView|
            (strategy.terminal_text(wire.source()), strategy.terminal_text(wire.destination())),
    )
}

/// The rows to write to the exported file: for each connection its source
/// and its destination in the format.
pub fn export_to_csv<S: ExportToCsvStrategy>(strategy: &S, connection_list: &Vec<Connection>) -> (rows:
    Vec<(String, String)>)
    ensures
        rows.deep_view() == export_rows(strategy, wires(connection_list@)),
{
    let mut rows: Vec<(String, String)> = Vec::new();
    let mut at: usize = 0;
    while at < connection_list.len()
        invariant
            at <= connection_list.len(),
            rows.deep_view() == export_rows(strategy, wires(connection_list@)).take(at as int),
        decreases connection_list.len() - at,
    {
        let connection = &connection_list[at];
        let source = strategy.format_terminal(
            connection.src_component.as_str(),
            connection.src_terminal_block.as_str(),
            connection.src_terminal.as_str(),
        );
        let destination = strategy.format_terminal(
            connection.dst_component.as_str(),
            connection.dst_terminal_block.as_str(),
            connection.dst_terminal.as_str(),
        );
        let ghost earlier = rows.deep_view();
        rows.push((source, destination));
        proof {
            assert(rows.deep_view() =~= earlier.push((source@, destination@)));
            assert(earlier.push((source@, destination@)) =~= export_rows(
                strategy,
                wires(connection_list@),
            ).take(at + 1));
        }
        at = at + 1;
    }
    proof {
        let all = export_rows(strategy, wires(connection_list@));
        assert(all.take(at as int) =~= all);
    }
    rows
}

/// The text of an export in the format: one line per connection, source and
/// destination joined by the delimiter, with a line feed between lines.
pub fn generate_csv_string<S: ExportToCsvStrategy>(
    strategy: &S,
    connection_list: &Vec<Connection>,
    delimiter: &str,
) -> (text: String)
    ensures
        text@ == rows_text(export_rows(strategy, wires(connection_list@)), delimiter@),
{
    let rows = export_to_csv(strategy, connection_list);
    let ghost lines = rows.deep_view().map_values(
        |row: (Seq<char>, Seq<char>)| row_line(row, delimiter@),
    );
    let mut text = String::new();
    let mut at: usize = 0;
    while at < rows.len()
        invariant
            at <= rows.len(),
            lines == rows.deep_view().map_values(
                |row: (Seq<char>, Seq<char>)| row_line(row, delimiter@),
            ),
            text@ == joined_lines(lines.take(at as int)),
        decreases rows.len() - at,
    {
        let ghost earlier = text@;
        if at > 0 {
            text.append("\n");
        }
        text.append(rows[at].0.as_str());
        text.append(delimiter);
        text.append(rows[at].1.as_str());
        proof {
            let longer = lines.take(at + 1);
            assert(longer.drop_last() =~= lines.take(at as int));
            assert(longer.last() == row_line(rows.deep_view()[at as int], delimiter@));
            assert(text@ =~= joined_lines(longer));
        }
        at = at + 1;
    }
    proof {
        assert(lines.take(at as int) =~= lines);
    }
    text
}

/// The cable format.
#[derive(Debug, Clone, Copy)]
pub struct ExportCableToCSVStrategy;

/// The wire format.
#[derive(Debug, Clone, Copy)]
pub struct ExportWireToCSVStrategy;

impl ExportToCsvStrategy for ExportWireToCSVStrategy {
    open spec fn terminal_text(&self, terminal: TerminalView) -> Seq<char> {
        wire_text(terminal)
    }

    fn format_terminal(&self, component: &str, terminal_block: &str, terminal: &str) -> (text:
        String) {
        let mut text = String::from_str(component);
        text.append("-");
        text.append(terminal_block);
        text.append("-");
        text.append(terminal);
        text
    }
}

impl ExportToCsvStrategy for ExportCableToCSVStrategy {
    open spec fn terminal_text(&self, terminal: TerminalView) -> Seq<char> {
        cable_text(terminal)
    }

    fn format_terminal(&self, component: &str, terminal_block: &str, terminal: &str) -> (text:
        String) {
        let mut text = String::from_str(component);
        text.append("-");
        text.append(terminal_block);
        text.append(" [");
        text.append(terminal);
        text.append("]");
        text
    }
}

impl ExportFormat {
    /// The text of an export of the connections in this format.
    pub fn generate_csv_string(&self, connection_list: &Vec<Connection>, delimiter: &str) -> (text:
        String)
        ensures
            text@ == match *self {
                ExportFormat::Wire => rows_text(
                    export_rows(&ExportWireToCSVStrategy, wires(connection_list@)),
                    delimiter@,
                ),
                ExportFormat::Cable => rows_text(
                    export_rows(&ExportCableToCSVStrategy, wires(connection_list@)),
                    delimiter@,
                ),
            },
    {
        match self {
            ExportFormat::Wire => generate_csv_string(
                &ExportWireToCSVStrategy,
                connection_list,
                delimiter,
            ),
            ExportFormat::Cable => generate_csv_string(
                &ExportCableToCSVStrategy,
                connection_list,
                delimiter,
            ),
        }
    }
}

} // verus!
