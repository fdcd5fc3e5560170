//! Operators: the display name that goes with an operator code.

use vstd::prelude::*;
use crate::station::line_views;
use crate::table::StringMap;
use crate::text::field_or_of;
use crate::text::starts_with_char;
use crate::text::trimmed;
use crate::text::trimmed_field;

verus! {

/// Operator names by operator code.
pub type OperatorTable = StringMap<String>;

/// The operator code and name that a line defines: an operator record,
/// which begins with the marker `T`, defines them when neither is empty.
pub open spec fn operator_of(line: Seq<char>) -> Option<(Seq<char>, Seq<char>)> {
    let code = trimmed(field_or_of(line, 1, 3, ""@));
    let name = trimmed(field_or_of(line, 3, 33, ""@));
    if line.len() > 0 && line[0] == 'T' && code.len() > 0 && name.len() > 0 {
        Some((code, name))
    } else {
        None
    }
}

/// The table after the operators of `lines` have been entered in order, a
/// later name replacing an earlier one for the same code.
pub open spec fn operators_after(
    table: Map<Seq<char>, Seq<char>>,
    lines: Seq<Seq<char>>,
) -> Map<Seq<char>, Seq<char>>
    decreases lines.len(),
{
    if lines.len() == 0 {
        table
    } else {
        let before = operators_after(table, lines.drop_last());
        match operator_of(lines.last()) {
            Some(entry) => before.insert(entry.0, entry.1),
            None => before,
        }
    }
}

/// Reads the operator code and name that a line defines, if it defines them.
pub fn read_operator(line: &str) -> (r: Option<(String, String)>)
    ensures
        match r {
            Some(entry) => operator_of(line@) == Some((entry.0@, entry.1@)),
            None => operator_of(line@) is None,
        },
{
    if !starts_with_char(line, 'T') {
        return None;
    }
    let code = trimmed_field(line, 1, 3, "");
    let name = trimmed_field(line, 3, 33, "");
    if !code.as_str().is_empty() && !name.as_str().is_empty() {
        Some((code, name))
    } else {
        None
    }
}

/// Enters the operators that `lines` define into `map`, in order.
pub fn parse_fares_toc(lines: &Vec<String>, map: &mut OperatorTable)
    requires
        old(map).wf(),
    ensures
        final(map).wf(),
        final(map)@ == operators_after(old(map)@, line_views(lines@)),
{
    let ghost all = line_views(lines@);
    let ghost start = map@;
    let mut i: usize = 0;
    while i < lines.len()
        invariant
            i <= lines.len(),
            map.wf(),
            all == line_views(lines@),
            map@ == operators_after(start, all.take(i as int)),
        decreases lines.len() - i,
    {
        proof {
            let next = all.take(i as int + 1);
            assert(next.drop_last() =~= all.take(i as int));
        }
        match read_operator(lines[i].as_str()) {
            Some(entry) => {
                map.insert(entry.0, entry.1);
            },
            None => {},
        }
        i = i + 1;
    }
    assert(all.take(i as int) =~= all);
}

} // verus!
