use label_wires::models::connection::Connection;
use label_wires::utils::csv_exporting_strategy::export_to_csv;
use label_wires::utils::csv_exporting_strategy::generate_csv_string;
use label_wires::utils::csv_exporting_strategy::ExportCableToCSVStrategy;
use label_wires::utils::csv_exporting_strategy::ExportFormat;
use label_wires::utils::csv_exporting_strategy::ExportToCsvStrategy;
use label_wires::utils::csv_exporting_strategy::ExportWireToCSVStrategy;

fn two_connections() -> Vec<Connection> {
    vec![
        Connection::new(
            "C1".into(), "B1".into(), "T1".into(), "C2".into(), "B2".into(), "T2".into(),
        ),
        Connection::new(
            "C3".into(), "B3".into(), "T3".into(), "C4".into(), "B4".into(), "T4".into(),
        ),
    ]
}

#[test]
fn wire_export_of_two_connections() {
    let text = generate_csv_string(&ExportWireToCSVStrategy, &two_connections(), "|");
    assert_eq!(text, "C1-B1-T1|C2-B2-T2\nC3-B3-T3|C4-B4-T4");
    let lines: Vec<&str> = text.lines().collect();
    assert_eq!(lines, vec!["C1-B1-T1|C2-B2-T2", "C3-B3-T3|C4-B4-T4"]);
}

#[test]
fn cable_export_of_two_connections() {
    let text = generate_csv_string(&ExportCableToCSVStrategy, &two_connections(), "|");
    assert_eq!(text, "C1-B1 [T1]|C2-B2 [T2]\nC3-B3 [T3]|C4-B4 [T4]");
}

#[test]
fn export_uses_the_delimiter_given() {
    let text = generate_csv_string(&ExportWireToCSVStrategy, &two_connections(), ";");
    assert_eq!(text, "C1-B1-T1;C2-B2-T2\nC3-B3-T3;C4-B4-T4");
    let text = generate_csv_string(&ExportWireToCSVStrategy, &two_connections(), " -> ");
    assert_eq!(text, "C1-B1-T1 -> C2-B2-T2\nC3-B3-T3 -> C4-B4-T4");
    let text = generate_csv_string(&ExportCableToCSVStrategy, &two_connections()[..1].to_vec(), "");
    assert_eq!(text, "C1-B1 [T1]C2-B2 [T2]");
}

#[test]
fn export_of_nothing_is_empty() {
    assert_eq!(generate_csv_string(&ExportWireToCSVStrategy, &vec![], "|"), "");
    assert_eq!(generate_csv_string(&ExportCableToCSVStrategy, &vec![], "|"), "");
    assert!(export_to_csv(&ExportWireToCSVStrategy, &vec![]).is_empty());
}

#[test]
fn export_of_one_connection_has_no_line_feed() {
    let one = two_connections()[..1].to_vec();
    assert_eq!(generate_csv_string(&ExportWireToCSVStrategy, &one, "|"), "C1-B1-T1|C2-B2-T2");
}

#[test]
fn wire_export_keeps_the_dashes_of_empty_names() {
    let sparse = vec![Connection::new(
        "C1".into(), "".into(), "".into(), "".into(), "".into(), "T2".into(),
    )];
    assert_eq!(generate_csv_string(&ExportWireToCSVStrategy, &sparse, "|"), "C1--|--T2");
    assert_eq!(generate_csv_string(&ExportCableToCSVStrategy, &sparse, "|"), "C1- []|- [T2]");
}

#[test]
fn export_rows_hold_source_and_destination() {
    let rows = export_to_csv(&ExportCableToCSVStrategy, &two_connections());
    assert_eq!(
        rows,
        vec![
            ("C1-B1 [T1]".to_string(), "C2-B2 [T2]".to_string()),
            ("C3-B3 [T3]".to_string(), "C4-B4 [T4]".to_string()),
        ]
    );
}

#[test]
fn format_terminal_of_each_format() {
    assert_eq!(ExportWireToCSVStrategy.format_terminal("C", "B", "T"), "C-B-T");
    assert_eq!(ExportCableToCSVStrategy.format_terminal("C", "B", "T"), "C-B [T]");
    assert_eq!(ExportWireToCSVStrategy.format_terminal("", "", ""), "--");
    assert_eq!(ExportCableToCSVStrategy.format_terminal("", "", ""), "- []");
}

#[test]
fn export_format_picks_the_strategy() {
    let list = two_connections();
    assert_eq!(
        ExportFormat::Wire.generate_csv_string(&list, "|"),
        generate_csv_string(&ExportWireToCSVStrategy, &list, "|")
    );
    assert_eq!(
        ExportFormat::Cable.generate_csv_string(&list, "|"),
        "C1-B1 [T1]|C2-B2 [T2]\nC3-B3 [T3]|C4-B4 [T4]"
    );
}
