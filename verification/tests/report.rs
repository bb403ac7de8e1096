use netracer::export::{export_rows, xls_row};
use netracer::flow::{Address, Connection};
use netracer::text::dec_string;

fn row(src: &str, dst: &str, protocol: &str, port: &str, time: u64) -> Connection {
    Connection {
        addr: Address {
            src: src.to_owned(),
            dst: dst.to_owned(),
            protocol: protocol.to_owned(),
            port: port.to_owned(),
        },
        time,
        max_speed: 0,
        avg_speed: 0,
    }
}

#[test]
fn decimal_rendering_is_canonical() {
    assert_eq!(dec_string(0), "0");
    assert_eq!(dec_string(7), "7");
    assert_eq!(dec_string(80), "80");
    assert_eq!(dec_string(65535), "65535");
    assert_eq!(dec_string(18446744073709551615), "18446744073709551615");
}

#[test]
fn epoch_renders_as_the_first_of_january() {
    let r = xls_row(&row("A", "X", "TCP", "80", 0));
    assert_eq!(r.last_date, "01.01.1970 00:00");
}

#[test]
fn dates_render_zero_padded_utc() {
    // 2024-02-29 23:05:00 UTC, a leap day.
    let r = xls_row(&row("A", "X", "TCP", "80", 1709247900));
    assert_eq!(r.last_date, "29.02.2024 23:05");
}

#[test]
fn merged_cells_break_spaces_into_lines() {
    let r = xls_row(&row("A B", "X Y Z", "TCP", "80, 443", 0));
    assert_eq!(r.source, "A\nB");
    assert_eq!(r.destination, "X\nY\nZ");
    assert_eq!(r.protocol, "TCP");
    assert_eq!(r.port, "80, 443");
}

#[test]
fn export_keeps_one_row_per_flow_in_order() {
    let rows = vec![row("A", "X", "TCP", "80", 0), row("B", "Y", "UDP", "53", 60)];
    let out = export_rows(&rows);
    assert_eq!(out.len(), 2);
    assert_eq!(out[0].source, "A");
    assert_eq!(out[0].last_date, "01.01.1970 00:00");
    assert_eq!(out[1].protocol, "UDP");
    assert_eq!(out[1].last_date, "01.01.1970 00:01");
}
