//! Rows of a document table: cells looked up by column name, and the mapping
//! of a row onto an event.
use vstd::prelude::*;
use vstd::string::StringExecFns;
use crate::event::{CalendarEvent, EventError};
use crate::temporal::{datetime_reading, default_end, end_after_default, parse_coda_datetime};
use crate::text::{lower_of, strip_char, strip_matches, to_lower, trim_str, trimmed_of};

verus! {

/// A table of a document, as listed by the document service.
pub struct CodaTable {
    pub id: String,
    pub name: String,
    pub table_type: String,
}

/// The value of one cell.
#[derive(Debug)]
pub enum CellValue {
    /// A text value.
    Text(String),
    /// An empty cell.
    Null,
    /// Any other value (a number, a flag, a list), in its JSON text form.
    Other(String),
}

/// The first cell under column `key`, from position `i` on.
pub open spec fn cell_from(cells: Seq<(String, CellValue)>, key: Seq<char>, i: int) -> Option<
    CellValue,
>
    decreases cells.len() - i,
{
    if i < 0 || i >= cells.len() {
        None
    } else if cells[i].0@ == key {
        Some(cells[i].1)
    } else {
        cell_from(cells, key, i + 1)
    }
}

/// A non-empty text, or nothing.
pub open spec fn non_empty(s: Seq<char>) -> Option<Seq<char>> {
    if s.len() > 0 { Some(s) } else { None }
}

/// The text of the cell under column `key`: a text value as it stands, any
/// other value without surrounding quotes, nothing for an empty cell or an
/// empty text.
pub open spec fn cell_text(cells: Seq<(String, CellValue)>, key: Seq<char>) -> Option<Seq<char>> {
    match cell_from(cells, key, 0) {
        Some(CellValue::Text(s)) => non_empty(s@),
        Some(CellValue::Other(j)) => non_empty(strip_char(j@, '"')),
        _ => None,
    }
}

pub open spec fn opt_view(o: Option<String>) -> Option<Seq<char>> {
    match o {
        Some(s) => Some(s@),
        None => None,
    }
}

/// Reads the text of a cell; `None` when the column is absent, the cell
/// empty, or its text empty.
pub fn get_string_value(values: &Vec<(String, CellValue)>, key: &str) -> (r: Option<String>)
    ensures
        opt_view(r) == cell_text(values@, key@),
{
    let k = String::from_str(key);
    let mut i: usize = 0;
    while i < values.len()
        invariant
            i <= values@.len(),
            k@ == key@,
            cell_from(values@, key@, 0) == cell_from(values@, key@, i as int),
        decreases values@.len() - i,
    {
        if values[i].0 == k {
            let s = match &values[i].1 {
                CellValue::Text(s) => s.clone(),
                CellValue::Null => String::new(),
                CellValue::Other(j) => strip_matches(j.as_str(), '"'),
            };
            if s.as_str().is_empty() {
                return None;
            }
            return Some(s);
        }
        i = i + 1;
    }
    None
}

/// Lines joined with a newline between each two.
pub open spec fn join_lines(parts: Seq<Seq<char>>) -> Seq<char>
    decreases parts.len(),
{
    if parts.len() == 0 {
        Seq::empty()
    } else if parts.len() == 1 {
        parts[0]
    } else {
        join_lines(parts.drop_last()) + "\n"@ + parts.last()
    }
}

/// The texts that are present, in order.
pub open spec fn present(parts: Seq<Option<Seq<char>>>) -> Seq<Seq<char>>
    decreases parts.len(),
{
    if parts.len() == 0 {
        Seq::empty()
    } else {
        let rest = present(parts.drop_last());
        match parts.last() {
            Some(p) => rest.push(p),
            None => rest,
        }
    }
}

/// The description of a row: its link, artists and works, one per line,
/// leaving out those that are absent; nothing when all three are.
pub open spec fn row_description(cells: Seq<(String, CellValue)>) -> Option<Seq<char>> {
    let parts = present(
        seq![
            cell_text(cells, "kenticoUrl"@),
            cell_text(cells, "artists"@),
            cell_text(cells, "works"@),
        ],
    );
    if parts.len() == 0 {
        None
    } else {
        Some(join_lines(parts))
    }
}

/// Adds `part` to the description built so far.
fn add_line(acc: Option<String>, part: Option<String>) -> (r: Option<String>)
    ensures
        opt_view(r) == (match (opt_view(acc), opt_view(part)) {
            (a, None) => a,
            (None, Some(p)) => Some(p),
            (Some(a), Some(p)) => Some(a + "\n"@ + p),
        }),
{
    match (acc, part) {
        (a, None) => a,
        (None, Some(p)) => Some(p),
        (Some(a), Some(p)) => {
            let mut s = a;
            s.append("\n");
            s.append(p.as_str());
            Some(s)
        },
    }
}

proof fn lemma_join_push(parts: Seq<Seq<char>>, p: Seq<char>)
    requires
        parts.len() > 0,
    ensures
        join_lines(parts.push(p)) == join_lines(parts) + "\n"@ + p,
{
    assert(parts.push(p).drop_last() == parts);
}

/// Builds the description of a row from its link, artists and works.
pub fn build_description(values: &Vec<(String, CellValue)>) -> (r: Option<String>)
    ensures
        opt_view(r) == row_description(values@),
{
    let a = get_string_value(values, "kenticoUrl");
    let b = get_string_value(values, "artists");
    let c = get_string_value(values, "works");
    let ghost ps = seq![opt_view(a), opt_view(b), opt_view(c)];
    let r1 = add_line(None, a);
    let r2 = add_line(r1, b);
    let r3 = add_line(r2, c);
    proof {
        reveal_with_fuel(present, 4);
        let p1 = present(ps.subrange(0, 1));
        let p2 = present(ps.subrange(0, 2));
        assert(ps.subrange(0, 1).drop_last() == ps.subrange(0, 0));
        assert(ps.subrange(0, 2).drop_last() == ps.subrange(0, 1));
        assert(ps.subrange(0, 3) == ps);
        assert(ps.drop_last() == ps.subrange(0, 2));
        assert(opt_view(r1) == (if p1.len() == 0 { None } else { Some(join_lines(p1)) }));
        if p1.len() > 0 && b is Some {
            lemma_join_push(p1, b->0@);
        }
        assert(opt_view(r2) == (if p2.len() == 0 { None } else { Some(join_lines(p2)) }));
        if p2.len() > 0 && c is Some {
            lemma_join_push(p2, c->0@);
        }
    }
    r3
}

/// Whether a purchased cell says yes: `yes` or `true`, in any case.
pub open spec fn purchased_flag(t: Option<Seq<char>>) -> bool {
    t matches Some(s) && (lower_of(s) == "yes"@ || lower_of(s) == "true"@)
}

/// The event a row holds, when `parse_coda_row` succeeds on it.
pub open spec fn coda_row_event(cells: Seq<(String, CellValue)>, e: CalendarEvent) -> bool {
    &&& cell_text(cells, "Display"@) == Some(e.title@)
    &&& cell_text(cells, "performanceDate"@) matches Some(p) && datetime_reading(p) == Some(
        (e.start_date, e.start_time),
    )
    &&& e.end_date == e.start_date
    &&& e.end_time == default_end(e.start_time)
    &&& opt_view(e.organization) == cell_text(cells, "Organization"@)
    &&& e.purchased == purchased_flag(cell_text(cells, "Purchased"@))
    &&& opt_view(e.location) == cell_text(cells, "venue"@)
    &&& opt_view(e.description) == row_description(cells)
}

/// Maps a row onto an event. The title comes from `Display` and must hold
/// more than blanks; the start from `performanceDate`; an event with a start
/// time ends the default duration later on the same date.
pub fn parse_coda_row(values: &Vec<(String, CellValue)>) -> (r: Result<CalendarEvent, EventError>)
    ensures
        match cell_text(values@, "Display"@) {
            None => r matches Err(e) && e.is_missing("Display"@),
            Some(t) => if trimmed_of(t).len() == 0 {
                r matches Err(e) && e.is_missing("Display"@)
            } else {
                match cell_text(values@, "performanceDate"@) {
                    None => r matches Err(e) && e.is_missing("performanceDate"@),
                    Some(p) => if datetime_reading(p) is None {
                        r matches Err(e) && e.is_invalid("performanceDate"@, p)
                    } else {
                        r matches Ok(e) && coda_row_event(values@, e) && e.wf()
                    },
                }
            },
        },
{
    let title = match get_string_value(values, "Display") {
        Some(t) => t,
        None => {
            return Err(EventError::MissingField("Display".to_string()));
        },
    };
    if trim_str(title.as_str()).as_str().is_empty() {
        return Err(EventError::MissingField("Display".to_string()));
    }
    let perf = match get_string_value(values, "performanceDate") {
        Some(p) => p,
        None => {
            return Err(EventError::MissingField("performanceDate".to_string()));
        },
    };
    let (start_date, start_time) = match parse_coda_datetime(perf.as_str()) {
        Ok(v) => v,
        Err(_) => {
            return Err(EventError::InvalidTemporal("performanceDate".to_string(), perf));
        },
    };
    let end_time = end_after_default(start_time);
    let organization = get_string_value(values, "Organization");
    let purchased = match get_string_value(values, "Purchased") {
        Some(v) => {
            let l = to_lower(v.as_str());
            l == String::from_str("yes") || l == String::from_str("true")
        },
        None => false,
    };
    let location = get_string_value(values, "venue");
    let description = build_description(values);
    Ok(
        CalendarEvent {
            title,
            description,
            location,
            organization,
            purchased,
            start_date,
            start_time,
            end_date: start_date,
            end_time,
        },
    )
}

} // verus!
