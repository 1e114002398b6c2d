//! The export of a ranking as comma-separated text.
//!
//! The text starts with a fixed header line. One line per process follows,
//! in ranking order: the name, the CPU load per core in percent and the
//! memory in megabytes, both to two decimal places. A comma inside a name
//! would be read as a field separator, so it is written as a full stop.

use vstd::prelude::*;
use vstd::string::StringExecFns;
use crate::decimal::{fixed_text, lemma_fixed_text_shape, push_fixed};
use crate::rank::{ranked_views, RankedProcess, RankedProcessView};
use crate::text::{
    lemma_occurrences_concat, lemma_occurrences_of_absent, lemma_replaced, occurrences,
    replace_char, replaced,
};

verus! {

/// The file that an export replaces.
pub const EXPORT_PATH: &'static str = "process_snapshot.csv";

/// The first line of an export, with its line end.
pub const EXPORT_HEADER: &'static str = "Process_Name,Normalized_CPU_Percent,Memory_Usage_MB\n";

/// The character that separates fields.
pub const FIELD_DELIMITER: char = ',';

/// The character written in a name where the delimiter stood.
pub const DELIMITER_SUBSTITUTE: char = '.';

/// A name with every field delimiter replaced.
pub open spec fn sanitized(name: Seq<char>) -> Seq<char> {
    replaced(name, FIELD_DELIMITER, DELIMITER_SUBSTITUTE)
}

/// What stands between two fields of a line: the delimiter and a space.
pub open spec fn field_gap() -> Seq<char> {
    seq![FIELD_DELIMITER, ' ']
}

/// The line of one process, with its line end.
pub open spec fn export_line(entry: RankedProcessView) -> Seq<char> {
    sanitized(entry.record.name) + field_gap() + fixed_text(entry.normalized_cpu) + field_gap()
        + fixed_text(entry.record.memory_bytes) + seq!['\n']
}

/// The lines of a run of processes, one after the other.
pub open spec fn export_lines(entries: Seq<RankedProcessView>) -> Seq<char>
    decreases entries.len(),
{
    if entries.len() == 0 {
        Seq::empty()
    } else {
        export_lines(entries.drop_last()) + export_line(entries.last())
    }
}

/// The whole export: the header, then the lines.
pub open spec fn export_text(entries: Seq<RankedProcessView>) -> Seq<char> {
    EXPORT_HEADER@ + export_lines(entries)
}

/// A sanitized name is as long as the name, holds no field delimiter, and
/// differs from the name only where a delimiter stood.
pub proof fn lemma_sanitized_has_no_delimiter(name: Seq<char>)
    ensures
        sanitized(name).len() == name.len(),
        forall|i: int| 0 <= i < name.len() ==> #[trigger] sanitized(name)[i] != FIELD_DELIMITER,
        forall|i: int|
            0 <= i < name.len() ==> #[trigger] sanitized(name)[i] == if name[i]
                == FIELD_DELIMITER {
                DELIMITER_SUBSTITUTE
            } else {
                name[i]
            },
        occurrences(sanitized(name), FIELD_DELIMITER) == 0,
{
    lemma_replaced(name, FIELD_DELIMITER, DELIMITER_SUBSTITUTE);
    lemma_occurrences_of_absent(sanitized(name), FIELD_DELIMITER);
}

/// Whatever the name of a process holds, its line has exactly two field
/// delimiters, so exactly three fields, and it ends with a line end.
pub proof fn lemma_export_line_has_three_fields(entry: RankedProcessView)
    ensures
        occurrences(export_line(entry), FIELD_DELIMITER) == 2,
        export_line(entry).last() == '\n',
{
    let name = sanitized(entry.record.name);
    let gap = field_gap();
    let cpu = fixed_text(entry.normalized_cpu);
    let memory = fixed_text(entry.record.memory_bytes);
    let end = seq!['\n'];
    lemma_sanitized_has_no_delimiter(entry.record.name);
    lemma_fixed_text_shape(entry.normalized_cpu);
    lemma_fixed_text_shape(entry.record.memory_bytes);
    lemma_occurrences_of_absent(cpu, FIELD_DELIMITER);
    lemma_occurrences_of_absent(memory, FIELD_DELIMITER);
    lemma_occurrences_of_absent(end, FIELD_DELIMITER);
    assert(occurrences(gap, FIELD_DELIMITER) == 1) by {
        reveal_with_fuel(occurrences, 3);
    }
    lemma_occurrences_concat(name, gap, FIELD_DELIMITER);
    lemma_occurrences_concat(name + gap, cpu, FIELD_DELIMITER);
    lemma_occurrences_concat(name + gap + cpu, gap, FIELD_DELIMITER);
    lemma_occurrences_concat(name + gap + cpu + gap, memory, FIELD_DELIMITER);
    lemma_occurrences_concat(name + gap + cpu + gap + memory, end, FIELD_DELIMITER);
}

/// An export starts with the header, and the lines of a ranking follow one
/// another in ranking order.
pub proof fn lemma_export_text_grows_by_lines(
    entries: Seq<RankedProcessView>,
    entry: RankedProcessView,
)
    ensures
        export_text(Seq::<RankedProcessView>::empty()) == EXPORT_HEADER@,
        export_text(entries.push(entry)) == export_text(entries) + export_line(entry),
{
    assert(entries.push(entry).drop_last() =~= entries);
}

/// The name as it is written to an export: no delimiter is left in it.
pub fn sanitize_name(name: &str) -> (clean: String)
    ensures
        clean@ == sanitized(name@),
{
    replace_char(name, FIELD_DELIMITER, DELIMITER_SUBSTITUTE)
}

/// Writes the line of `entry` at the end of `text`.
pub fn push_export_line(text: &mut String, entry: &RankedProcess)
    ensures
        final(text)@ == old(text)@ + export_line(entry@),
{
    let name = sanitize_name(entry.record.name.as_str());
    text.append(name.as_str());
    text.push(FIELD_DELIMITER);
    text.push(' ');
    push_fixed(text, entry.normalized_cpu);
    text.push(FIELD_DELIMITER);
    text.push(' ');
    push_fixed(text, entry.record.memory_bytes);
    text.push('\n');
}

/// The export of `ranked`: the header and one line per process, in the order
/// given.
pub fn render_export(ranked: &Vec<RankedProcess>) -> (text: String)
    ensures
        text@ == export_text(ranked_views(ranked@)),
{
    let ghost entries = ranked_views(ranked@);
    let mut text = String::from_str(EXPORT_HEADER);
    let mut done: usize = 0;
    while done < ranked.len()
        invariant
            done <= ranked@.len(),
            entries == ranked_views(ranked@),
            text@ == EXPORT_HEADER@ + export_lines(entries.take(done as int)),
        decreases ranked@.len() - done,
    {
        push_export_line(&mut text, &ranked[done]);
        proof {
            let next = entries.take(done + 1);
            assert(next.drop_last() =~= entries.take(done as int));
        }
        done = done + 1;
    }
    assert(entries.take(done as int) =~= entries);
    text
}

} // verus!
