//! Cleanup and field splitting for decoded source lines.
//!
//! A decoded line first has every space character removed (the source data
//! pads fields with ASCII and ideographic spaces), is then trimmed of
//! surrounding whitespace, and finally split on commas into positional
//! fields.

use vstd::prelude::*;

verus! {

/// Characters removed everywhere in a decoded line: the ASCII space and the
/// full-width ideographic space.
pub open spec fn is_removed_space(c: char) -> bool {
    c == ' ' || c == '\u{3000}'
}

/// Whitespace trimmed from the ends of a line after space removal: the
/// Unicode White_Space set, the same characters `str::trim` removes.
pub open spec fn is_line_whitespace(c: char) -> bool {
    ||| (0x9 <= c as u32 <= 0xd)
    ||| c == ' '
    ||| c == '\u{85}'
    ||| c == '\u{a0}'
    ||| c == '\u{1680}'
    ||| (0x2000 <= c as u32 <= 0x200a)
    ||| c == '\u{2028}'
    ||| c == '\u{2029}'
    ||| c == '\u{202f}'
    ||| c == '\u{205f}'
    ||| c == '\u{3000}'
}

/// The line with every removed-space character deleted, order kept.
pub open spec fn strip_spaces_of(s: Seq<char>) -> Seq<char>
    decreases s.len(),
{
    if s.len() == 0 {
        Seq::empty()
    } else {
        let r = strip_spaces_of(s.drop_last());
        if is_removed_space(s.last()) {
            r
        } else {
            r.push(s.last())
        }
    }
}

pub open spec fn trim_start_of(s: Seq<char>) -> Seq<char>
    decreases s.len(),
{
    if s.len() == 0 {
        s
    } else if is_line_whitespace(s[0]) {
        trim_start_of(s.skip(1))
    } else {
        s
    }
}

pub open spec fn trim_end_of(s: Seq<char>) -> Seq<char>
    decreases s.len(),
{
    if s.len() == 0 {
        s
    } else if is_line_whitespace(s.last()) {
        trim_end_of(s.drop_last())
    } else {
        s
    }
}

/// The full cleanup applied to each decoded line: delete spaces, then trim
/// both ends.
pub open spec fn clean_of(s: Seq<char>) -> Seq<char> {
    trim_end_of(trim_start_of(strip_spaces_of(s)))
}

/// The comma-split of a line: one more field than there are commas, fields
/// in order, each field comma-free. An empty line splits into one empty
/// field.
pub open spec fn split_of(s: Seq<char>) -> Seq<Seq<char>>
    decreases s.len(),
{
    if s.len() == 0 {
        seq![Seq::empty()]
    } else {
        let r = split_of(s.drop_last());
        if s.last() == ',' {
            r.push(Seq::empty())
        } else {
            r.update(r.len() - 1, r.last().push(s.last()))
        }
    }
}

fn is_removed_space_char(c: char) -> (b: bool)
    ensures
        b == is_removed_space(c),
{
    c == ' ' || c == '\u{3000}'
}

fn is_line_whitespace_char(c: char) -> (b: bool)
    ensures
        b == is_line_whitespace(c),
{
    let u = c as u32;
    (0x9 <= u && u <= 0xd) || c == ' ' || c == '\u{85}' || c == '\u{a0}' || c == '\u{1680}'
        || (0x2000 <= u && u <= 0x200a) || c == '\u{2028}' || c == '\u{2029}' || c == '\u{202f}'
        || c == '\u{205f}' || c == '\u{3000}'
}

/// Deletes every space character from the line, then trims whitespace from
/// both ends.
pub fn clean_line(line: &Vec<char>) -> (r: Vec<char>)
    ensures
        r@ == clean_of(line@),
{
    let mut stripped: Vec<char> = Vec::new();
    let mut i: usize = 0;
    while i < line.len()
        invariant
            i <= line.len(),
            stripped@ == strip_spaces_of(line@.take(i as int)),
        decreases line.len() - i,
    {
        let c = line[i];
        proof {
            assert(line@.take(i + 1).drop_last() =~= line@.take(i as int));
            assert(line@.take(i + 1).last() == line@[i as int]);
        }
        if !is_removed_space_char(c) {
            stripped.push(c);
        }
        i = i + 1;
    }
    proof {
        assert(line@.take(line@.len() as int) =~= line@);
    }

    let mut start: usize = 0;
    proof {
        assert(stripped@.skip(0) =~= stripped@);
    }
    while start < stripped.len() && is_line_whitespace_char(stripped[start])
        invariant
            start <= stripped.len(),
            trim_start_of(stripped@) == trim_start_of(stripped@.skip(start as int)),
        decreases stripped.len() - start,
    {
        proof {
            assert(stripped@.skip(start as int)[0] == stripped@[start as int]);
            assert(stripped@.skip(start as int).skip(1) =~= stripped@.skip(start + 1));
        }
        start = start + 1;
    }
    proof {
        if start < stripped.len() {
            assert(stripped@.skip(start as int)[0] == stripped@[start as int]);
        }
        assert(trim_start_of(stripped@) =~= stripped@.skip(start as int));
    }

    let mut end: usize = stripped.len();
    while end > start && is_line_whitespace_char(stripped[end - 1])
        invariant
            start <= end <= stripped.len(),
            trim_start_of(stripped@) == stripped@.skip(start as int),
            trim_end_of(stripped@.skip(start as int)) == trim_end_of(
                stripped@.subrange(start as int, end as int),
            ),
        decreases end,
    {
        proof {
            let sub = stripped@.subrange(start as int, end as int);
            assert(sub.last() == stripped@[end - 1]);
            assert(sub.drop_last() =~= stripped@.subrange(start as int, end - 1));
        }
        end = end - 1;
    }
    proof {
        let sub = stripped@.subrange(start as int, end as int);
        if end > start {
            assert(sub.last() == stripped@[end - 1]);
        }
        assert(trim_end_of(sub) =~= sub);
        assert(stripped@.skip(start as int) =~= stripped@.subrange(
            start as int,
            stripped@.len() as int,
        ));
    }

    let mut out: Vec<char> = Vec::new();
    let mut j: usize = start;
    while j < end
        invariant
            start <= j <= end <= stripped.len(),
            out@ == stripped@.subrange(start as int, j as int),
        decreases end - j,
    {
        out.push(stripped[j]);
        proof {
            assert(out@ =~= stripped@.subrange(start as int, j + 1));
        }
        j = j + 1;
    }
    proof {
        assert(out@ == clean_of(line@));
    }
    out
}

/// Splits a cleaned line on commas into its positional fields.
pub fn split_fields(line: &Vec<char>) -> (r: Vec<Vec<char>>)
    ensures
        r.deep_view() == split_of(line@),
        r.len() >= 1,
{
    let mut fields: Vec<Vec<char>> = Vec::new();
    fields.push(Vec::new());
    proof {
        assert(fields.deep_view() =~~= split_of(line@.take(0)));
    }
    let mut i: usize = 0;
    while i < line.len()
        invariant
            i <= line.len(),
            fields.len() >= 1,
            fields.deep_view() == split_of(line@.take(i as int)),
        decreases line.len() - i,
    {
        let c = line[i];
        proof {
            assert(line@.take(i + 1).drop_last() =~= line@.take(i as int));
            assert(line@.take(i + 1).last() == line@[i as int]);
        }
        if c == ',' {
            fields.push(Vec::new());
            proof {
                assert(fields.deep_view() =~~= split_of(line@.take(i + 1)));
            }
        } else {
            let ghost before = fields.deep_view();
            let last_index = fields.len() - 1;
            let mut last = fields.remove(last_index);
            last.push(c);
            fields.push(last);
            proof {
                assert(fields.deep_view() =~~= before.update(
                    before.len() - 1,
                    before.last().push(line@[i as int]),
                ));
                assert(fields.deep_view() =~~= split_of(line@.take(i + 1)));
            }
        }
        i = i + 1;
    }
    proof {
        assert(line@.take(line@.len() as int) =~= line@);
    }
    fields
}

} // verus!
