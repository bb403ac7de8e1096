//! Spreadsheet row preparation: the cell texts of a report over a snapshot
//! of flows. Writing the worksheet itself is the presentation layer's job;
//! this module fixes what each cell says.

use vstd::prelude::*;

use crate::flow::{Connection, ConnectionView};

verus! {

/// Timestamps the report can render: below the year ten thousand.
pub const MAX_RENDERABLE_TIME: u64 = 253402300800;

/// The text of a Unix timestamp under the report's date format
/// (zero-padded day.month.year hours:minutes, UTC). The rendering is a
/// function of the timestamp alone; writing the civil-calendar computation
/// out here would only duplicate the formatter it names.
pub uninterp spec fn date_text_of(t: u64) -> Seq<char>;

/// Relies on chrono's `DateTime::<Utc>::from_timestamp` and `format`: for a
/// timestamp below the year ten thousand the conversion succeeds, and the
/// fixed-format UTC rendering depends on the timestamp alone.
#[verifier::external_body]
fn format_timestamp(t: u64) -> (r: String)
    requires
        t < MAX_RENDERABLE_TIME,
    ensures
        r@ == date_text_of(t),
{
    let datetime: chrono::DateTime<chrono::Utc> = chrono::DateTime::from_timestamp(
        t as i64,
        0,
    ).unwrap();
    format!("{}", datetime.format("%d.%m.%Y %H:%M"))
}

/// A merged cell text with its space separators turned into line breaks.
pub open spec fn broken_lines(s: Seq<char>) -> Seq<char> {
    s.map_values(
        |c: char|
            if c == ' ' {
                '\n'
            } else {
                c
            },
    )
}

/// Turns every space of a merged field into a line break.
pub fn break_spaces(s: &str) -> (r: String)
    ensures
        r@ == broken_lines(s@),
{
    let n = s.unicode_len();
    let mut r = String::new();
    let mut i: usize = 0;
    while i < n
        invariant
            n == s@.len(),
            0 <= i <= n,
            r@.len() == i,
            forall|j: int|
                0 <= j < i ==> r@[j] == (if s@[j] == ' ' {
                    '\n'
                } else {
                    s@[j]
                }),
        decreases n - i,
    {
        let c = s.get_char(i);
        if c == ' ' {
            crate::text::push_char(&mut r, '\n');
        } else {
            crate::text::push_char(&mut r, c);
        }
        i = i + 1;
    }
    proof {
        assert(r@ =~= broken_lines(s@));
    }
    r
}

/// One report row: the five cell texts.
pub struct XlsRow {
    pub source: String,
    pub destination: String,
    pub protocol: String,
    pub port: String,
    pub last_date: String,
}

/// The mathematical value of a report row.
pub ghost struct XlsRowView {
    pub source: Seq<char>,
    pub destination: Seq<char>,
    pub protocol: Seq<char>,
    pub port: Seq<char>,
    pub last_date: Seq<char>,
}

impl View for XlsRow {
    type V = XlsRowView;

    open spec fn view(&self) -> XlsRowView {
        XlsRowView {
            source: self.source@,
            destination: self.destination@,
            protocol: self.protocol@,
            port: self.port@,
            last_date: self.last_date@,
        }
    }
}

/// The report row of one flow: merged sources and destinations broken over
/// lines, protocol and ports verbatim, the timestamp as a date.
pub open spec fn xls_row_spec(c: ConnectionView) -> XlsRowView {
    XlsRowView {
        source: broken_lines(c.addr.src),
        destination: broken_lines(c.addr.dst),
        protocol: c.addr.protocol,
        port: c.addr.port,
        last_date: date_text_of(c.time),
    }
}

/// The report row of one flow.
pub fn xls_row(c: &Connection) -> (r: XlsRow)
    requires
        c.time < MAX_RENDERABLE_TIME,
    ensures
        r@ == xls_row_spec(c@),
{
    XlsRow {
        source: break_spaces(c.addr.src.as_str()),
        destination: break_spaces(c.addr.dst.as_str()),
        protocol: c.addr.protocol.clone(),
        port: c.addr.port.clone(),
        last_date: format_timestamp(c.time),
    }
}

/// The report rows of a snapshot, one per flow, in snapshot order.
pub fn export_rows(rows: &Vec<Connection>) -> (r: Vec<XlsRow>)
    requires
        forall|i: int| 0 <= i < rows@.len() ==> (#[trigger] rows@[i]).time < MAX_RENDERABLE_TIME,
    ensures
        r@.len() == rows@.len(),
        forall|i: int| 0 <= i < r@.len() ==> (#[trigger] r@[i])@ == xls_row_spec(rows@[i]@),
{
    let n = rows.len();
    let mut r: Vec<XlsRow> = Vec::new();
    let mut i: usize = 0;
    while i < n
        invariant
            n == rows.len(),
            0 <= i <= n,
            r@.len() == i,
            forall|i2: int| 0 <= i2 < n ==> (#[trigger] rows@[i2]).time < MAX_RENDERABLE_TIME,
            forall|j: int| 0 <= j < i ==> (#[trigger] r@[j])@ == xls_row_spec(rows@[j]@),
        decreases n - i,
    {
        r.push(xls_row(&rows[i]));
        i = i + 1;
    }
    r
}

} // verus!
