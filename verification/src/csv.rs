//! Builds the incident-export CSV: a fixed header, then one double-quoted
//! row per incident, with a missing resolution time shown as `N/A`.
use vstd::prelude::*;

verus! {

/// One incident row of the export, already decoded into plain text fields.
pub struct IncidentRecord {
    pub incident_id: String,
    pub source: String,
    pub severity: String,
    pub outcome: String,
    pub failure_type: String,
    pub created_at: String,
    pub resolved_at: Option<String>,
}

/// The rendering of one incident as a CSV row: each field double-quoted,
/// fields separated by commas, the row closed by a newline, and a missing
/// resolution shown as `N/A`.
pub open spec fn spec_csv_row(rec: IncidentRecord) -> Seq<char> {
    "\""@ + rec.incident_id@ + "\",\""@ + rec.source@ + "\",\""@ + rec.severity@ + "\",\""@
        + rec.outcome@ + "\",\""@ + rec.failure_type@ + "\",\""@ + rec.created_at@ + "\",\""@ + (
    match rec.resolved_at {
        Some(resolved) => resolved@,
        None => "N/A"@,
    }) + "\"\n"@
}

/// The rendering of the rows at or after `i`, in order.
pub open spec fn spec_csv_rows(rows: Seq<IncidentRecord>, i: int) -> Seq<char>
    decreases rows.len() - i,
{
    if i < 0 || i >= rows.len() {
        Seq::empty()
    } else {
        spec_csv_row(rows[i]) + spec_csv_rows(rows, i + 1)
    }
}

/// The header line of the incident export.
pub open spec fn spec_csv_header() -> Seq<char> {
    "Incident ID,Source,Severity,Status,Failure Type,Created At,Resolved At\n"@
}

/// Builds the complete CSV text from the incident rows: the header line,
/// then every row in order.
pub fn build_incidents_csv(rows: &Vec<IncidentRecord>) -> (r: String)
    ensures
        r@ == spec_csv_header() + spec_csv_rows(rows@, 0),
{
    let mut out = String::from_str(
        "Incident ID,Source,Severity,Status,Failure Type,Created At,Resolved At\n",
    );
    let n = rows.len();
    let mut i: usize = 0;
    while i < n
        invariant
            n == rows@.len(),
            i <= n,
            spec_csv_header() + spec_csv_rows(rows@, 0) == out@ + spec_csv_rows(rows@, i as int),
        decreases n - i,
    {
        let ghost prev = out@;
        let rec = &rows[i];
        out.append("\"");
        out.append(rec.incident_id.as_str());
        out.append("\",\"");
        out.append(rec.source.as_str());
        out.append("\",\"");
        out.append(rec.severity.as_str());
        out.append("\",\"");
        out.append(rec.outcome.as_str());
        out.append("\",\"");
        out.append(rec.failure_type.as_str());
        out.append("\",\"");
        out.append(rec.created_at.as_str());
        out.append("\",\"");
        match &rec.resolved_at {
            Some(resolved) => out.append(resolved.as_str()),
            None => out.append("N/A"),
        }
        out.append("\"\n");
        proof {
            assert(out@ =~= prev + spec_csv_row(rows@[i as int]));
            assert(prev + (spec_csv_row(rows@[i as int]) + spec_csv_rows(rows@, i + 1)) =~= (prev
                + spec_csv_row(rows@[i as int])) + spec_csv_rows(rows@, i + 1));
        }
        i += 1;
    }
    proof {
        assert(out@ + spec_csv_rows(rows@, n as int) =~= out@);
    }
    out
}

} // verus!
