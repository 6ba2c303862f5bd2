//! The table of probe patterns: lines of comma-separated fields, the first
//! naming a benchmark and the last holding a pattern.

use vstd::prelude::*;
use vstd::string::StrSliceExecFns;
use crate::bench::texts;
use crate::text::{chars_of, find_char, find_last_piece, range_eq, split, trim, trim_range};

verus! {

/// The pattern that a line of the table gives to the benchmark `bench`, if
/// it gives one. A line is read without the white space around it. An empty
/// line says nothing, nor does a line that starts with `#`. Any other line
/// is cut at its commas into fields, each read without the white space
/// around it: where the first field is the benchmark's name, the last field
/// is the pattern.
pub open spec fn line_pattern(line: Seq<char>, bench: Seq<char>) -> Option<Seq<char>> {
    let entry = trim(line);
    if entry.len() == 0 || entry[0] == '#' {
        None
    } else {
        let fields = split(entry, ',');
        if trim(fields[0]) == bench {
            Some(trim(fields.last()))
        } else {
            None
        }
    }
}

/// The patterns that the given lines give to the benchmark `bench`, in the
/// order of the lines.
pub open spec fn lines_patterns(lines: Seq<Seq<char>>, bench: Seq<char>) -> Seq<Seq<char>>
    decreases lines.len(),
{
    if lines.len() == 0 {
        Seq::empty()
    } else {
        let rest = lines_patterns(lines.skip(1), bench);
        match line_pattern(lines[0], bench) {
            Some(pattern) => seq![pattern] + rest,
            None => rest,
        }
    }
}

/// The patterns that a table gives to the benchmark `bench`. The table is
/// cut into lines at its line feeds; the first line is a header and says
/// nothing.
pub open spec fn table_patterns(table: Seq<char>, bench: Seq<char>) -> Seq<Seq<char>> {
    lines_patterns(split(table, '\n').skip(1), bench)
}

/// Reads one line of the table, the stretch from `lo` to `hi`: the stretch
/// that holds the pattern it gives to `bench`, if it gives one.
fn read_line(chars: &Vec<char>, lo: usize, hi: usize, bench: &Vec<char>) -> (found: Option<
    (usize, usize),
>)
    requires
        lo <= hi <= chars@.len(),
    ensures
        match line_pattern(chars@.subrange(lo as int, hi as int), bench@) {
            Some(pattern) => found matches Some((from, to)) && lo <= from <= to <= hi
                && chars@.subrange(from as int, to as int) == pattern,
            None => found is None,
        },
{
    let (start, end) = trim_range(chars, lo, hi);
    if start == end || chars[start] == '#' {
        return None;
    }
    let ghost entry = chars@.subrange(start as int, end as int);
    let comma = find_char(chars, start, end, ',');
    let tail = find_last_piece(chars, start, end, ',');
    proof {
        assert(entry.take(comma - start) =~= chars@.subrange(start as int, comma as int));
    }
    let (name_from, name_to) = trim_range(chars, start, comma);
    if range_eq(chars, name_from, name_to, bench) {
        let (from, to) = trim_range(chars, tail, end);
        Some((from, to))
    } else {
        None
    }
}

/// Reads the table of probe patterns and hands out, in the order of the
/// lines, the patterns of the lines that name the benchmark `bench_name`.
pub fn parse_patterns(table: &str, bench_name: &str) -> (patterns: Vec<String>)
    ensures
        texts(patterns@) == table_patterns(table@, bench_name@),
{
    let chars = chars_of(table);
    let bench = chars_of(bench_name);
    let n = chars.len();
    let mut patterns: Vec<String> = Vec::new();
    let header_end = find_char(&chars, 0, n, '\n');
    proof {
        assert(chars@.subrange(0, n as int) =~= table@);
    }
    if header_end == n {
        return patterns;
    }
    let mut pos: usize = header_end + 1;
    proof {
        assert(split(table@, '\n').skip(1) =~= split(table@.skip(header_end + 1), '\n'));
    }
    loop
        invariant_except_break
            pos <= n,
            texts(patterns@) + lines_patterns(split(table@.skip(pos as int), '\n'), bench@)
                == table_patterns(table@, bench@),
        invariant
            n == chars@.len(),
            chars@ == table@,
            bench@ == bench_name@,
        ensures
            texts(patterns@) == table_patterns(table@, bench@),
        decreases n - pos,
    {
        let ghost rest = table@.skip(pos as int);
        let line_end = find_char(&chars, pos, n, '\n');
        proof {
            assert(rest.take(line_end - pos) =~= chars@.subrange(pos as int, line_end as int));
        }
        let found = read_line(&chars, pos, line_end, &bench);
        if let Some((from, to)) = found {
            let pattern = table.substring_char(from, to).to_owned();
            patterns.push(pattern);
        }
        if line_end == n {
            proof {
                assert(lines_patterns(split(rest, '\n').skip(1), bench@) =~= Seq::<
                    Seq<char>,
                >::empty());
            }
            break;
        }
        proof {
            let after = table@.skip(line_end + 1);
            assert(rest.skip(line_end - pos + 1) =~= after);
            assert(split(rest, '\n').skip(1) =~= split(after, '\n'));
        }
        pos = line_end + 1;
    }
    patterns
}

} // verus!
