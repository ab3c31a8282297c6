//! Parsing the textual dataset format: line one is the title, line two the
//! comma-separated category labels, line three the comma-separated values.
//! Non-numeric value tokens are dropped; malformed input degrades to an
//! error-titled empty dataset that still renders as the placeholder.

use vstd::prelude::*;
use vstd::string::*;
use crate::dataset::{Dataset, DatasetV, ChartKind, LEN_LIMIT};
use crate::numeral::parsed_value;
use crate::scale::VALUE_LIMIT;

verus! {

/// Whether `c` is blank space around a token.
pub open spec fn is_space_char(c: char) -> bool {
    c == ' ' || c == '\t' || c == '\r' || c == '\n'
}

/// Length of the longest blank prefix of `s`.
pub open spec fn space_prefix_len(s: Seq<char>) -> int
    decreases s.len(),
{
    if s.len() == 0 || !is_space_char(s[0]) {
        0
    } else {
        1 + space_prefix_len(s.drop_first())
    }
}

/// Length of the longest blank suffix of `s`.
pub open spec fn space_suffix_len(s: Seq<char>) -> int
    decreases s.len(),
{
    if s.len() == 0 || !is_space_char(s.last()) {
        0
    } else {
        1 + space_suffix_len(s.drop_last())
    }
}

/// `s` without its surrounding blank space.
pub open spec fn trim_of(s: Seq<char>) -> Seq<char> {
    let rest = s.skip(space_prefix_len(s));
    rest.take(rest.len() - space_suffix_len(rest))
}

/// Length of the longest prefix of `s` free of `sep`.
pub open spec fn prefix_len_until(s: Seq<char>, sep: char) -> int
    decreases s.len(),
{
    if s.len() == 0 || s[0] == sep {
        0
    } else {
        1 + prefix_len_until(s.drop_first(), sep)
    }
}

/// `s` split on `sep`: the pieces between separators, in order, empty
/// pieces kept.
pub open spec fn split_on(s: Seq<char>, sep: char) -> Seq<Seq<char>>
    decreases s.len(),
{
    let k = prefix_len_until(s, sep);
    if 0 <= k < s.len() {
        seq![s.take(k)] + split_on(s.skip(k + 1), sep)
    } else {
        seq![s]
    }
}

/// A line with a trailing carriage return removed.
pub open spec fn strip_cr(l: Seq<char>) -> Seq<char> {
    if l.len() > 0 && l.last() == '\r' {
        l.drop_last()
    } else {
        l
    }
}

/// The lines of a text: newline-separated, a final newline produces no
/// extra empty line, and each line loses a trailing carriage return.
pub open spec fn lines_of(s: Seq<char>) -> Seq<Seq<char>> {
    if s.len() == 0 {
        Seq::empty()
    } else {
        let body = if s.last() == '\n' {
            s.drop_last()
        } else {
            s
        };
        split_on(body, '\n').map_values(|l: Seq<char>| strip_cr(l))
    }
}

/// The values a comma-separated token list denotes: each token trimmed and
/// parsed, tokens that are no numeral silently dropped.
pub open spec fn parsed_values(pieces: Seq<Seq<char>>) -> Seq<i64>
    decreases pieces.len(),
{
    if pieces.len() == 0 {
        Seq::empty()
    } else {
        let rest = parsed_values(pieces.drop_last());
        match parsed_value(trim_of(pieces.last())) {
            Some(v) => rest.push(v),
            None => rest,
        }
    }
}

/// The dataset a text blob denotes: title, trimmed category labels, parsed
/// values; fewer than three lines degrade to an error-titled empty dataset.
pub open spec fn spec_parse_dataset(s: Seq<char>, kind: ChartKind) -> DatasetV {
    let lines = lines_of(s);
    if lines.len() >= 3 {
        DatasetV {
            title: lines[0],
            categories: split_on(lines[1], ',').map_values(|p: Seq<char>| trim_of(p)),
            values: parsed_values(split_on(lines[2], ',')),
            chart_type: kind,
        }
    } else {
        DatasetV {
            title: "Error: Invalid data format"@,
            categories: Seq::empty(),
            values: Seq::empty(),
            chart_type: kind,
        }
    }
}

/// Blank prefixes are characterized by their blanks and their end.
proof fn lemma_space_prefix_len(s: Seq<char>)
    ensures
        0 <= space_prefix_len(s) <= s.len(),
        forall|i: int| 0 <= i < space_prefix_len(s) ==> is_space_char(#[trigger] s[i]),
        space_prefix_len(s) < s.len() ==> !is_space_char(s[space_prefix_len(s)]),
    decreases s.len(),
{
    if s.len() == 0 || !is_space_char(s[0]) {
    } else {
        lemma_space_prefix_len(s.drop_first());
        assert forall|i: int| 0 <= i < space_prefix_len(s) implies is_space_char(
            #[trigger] s[i],
        ) by {
            if i > 0 {
                assert(s[i] == s.drop_first()[i - 1]);
            }
        }
    }
}

/// Blank suffixes are characterized by their blanks and their start.
proof fn lemma_space_suffix_len(s: Seq<char>)
    ensures
        0 <= space_suffix_len(s) <= s.len(),
        forall|i: int| s.len() - space_suffix_len(s) <= i < s.len() ==> is_space_char(
            #[trigger] s[i],
        ),
        space_suffix_len(s) < s.len() ==> !is_space_char(s[s.len() - space_suffix_len(s) - 1]),
    decreases s.len(),
{
    if s.len() == 0 || !is_space_char(s.last()) {
    } else {
        lemma_space_suffix_len(s.drop_last());
        assert forall|i: int| s.len() - space_suffix_len(s) <= i < s.len() implies is_space_char(
            #[trigger] s[i],
        ) by {
            if i < s.len() - 1 {
                assert(s[i] == s.drop_last()[i]);
            }
        }
    }
}

/// Separator-free prefixes are characterized by their contents and their
/// end.
proof fn lemma_prefix_len_until(s: Seq<char>, sep: char)
    ensures
        0 <= prefix_len_until(s, sep) <= s.len(),
        forall|i: int| 0 <= i < prefix_len_until(s, sep) ==> #[trigger] s[i] != sep,
        prefix_len_until(s, sep) < s.len() ==> s[prefix_len_until(s, sep)] == sep,
    decreases s.len(),
{
    if s.len() == 0 || s[0] == sep {
    } else {
        lemma_prefix_len_until(s.drop_first(), sep);
        assert forall|i: int| 0 <= i < prefix_len_until(s, sep) implies #[trigger] s[i] != sep by {
            if i > 0 {
                assert(s[i] == s.drop_first()[i - 1]);
            }
        }
    }
}

/// A split has at most one piece more than the text has characters, and no
/// piece outgrows the text.
proof fn lemma_split_bounds(s: Seq<char>, sep: char)
    ensures
        1 <= split_on(s, sep).len() <= s.len() + 1,
        forall|i: int| 0 <= i < split_on(s, sep).len() ==> #[trigger] split_on(s, sep)[i].len()
            <= s.len(),
    decreases s.len(),
{
    lemma_prefix_len_until(s, sep);
    let k = prefix_len_until(s, sep);
    if k == s.len() {
    } else {
        lemma_split_bounds(s.skip(k + 1), sep);
        assert forall|i: int| 0 <= i < split_on(s, sep).len() implies #[trigger] split_on(
            s,
            sep,
        )[i].len() <= s.len() by {
            if i > 0 {
                assert(split_on(s, sep)[i] == split_on(s.skip(k + 1), sep)[i - 1]);
            }
        }
    }
}

/// Parsed value sequences stay within the dataset bounds.
proof fn lemma_parsed_values_bounds(pieces: Seq<Seq<char>>)
    ensures
        parsed_values(pieces).len() <= pieces.len(),
        forall|j: int| 0 <= j < parsed_values(pieces).len() ==> -VALUE_LIMIT
            <= #[trigger] parsed_values(pieces)[j] <= VALUE_LIMIT,
    decreases pieces.len(),
{
    if pieces.len() > 0 {
        lemma_parsed_values_bounds(pieces.drop_last());
    }
}

/// Whether `c` is blank space.
fn is_space(c: char) -> (r: bool)
    ensures
        r == is_space_char(c),
{
    c == ' ' || c == '\t' || c == '\r' || c == '\n'
}

/// Trims surrounding blank space from a string.
pub fn trim_str(s: &str) -> (r: String)
    ensures
        r@ == trim_of(s@),
{
    let len = s.unicode_len();
    let mut a: usize = 0;
    while a < len && is_space(s.get_char(a))
        invariant
            0 <= a <= len,
            len == s@.len(),
            forall|i: int| 0 <= i < a ==> is_space_char(#[trigger] s@[i]),
        decreases len - a,
    {
        a = a + 1;
    }
    let mut b: usize = len;
    while b > a && is_space(s.get_char(b - 1))
        invariant
            a <= b <= len,
            len == s@.len(),
            forall|i: int| 0 <= i < a ==> is_space_char(#[trigger] s@[i]),
            a < len ==> !is_space_char(s@[a as int]),
            forall|i: int| b <= i < len ==> is_space_char(#[trigger] s@[i]),
        decreases b,
    {
        b = b - 1;
    }
    proof {
        lemma_space_prefix_len(s@);
        assert(space_prefix_len(s@) == a);
        let rest = s@.skip(a as int);
        lemma_space_suffix_len(rest);
        assert forall|i: int| rest.len() - (len - b) <= i < rest.len() implies is_space_char(
            #[trigger] rest[i],
        ) by {
            assert(rest[i] == s@[i + a]);
        }
        if b > a {
            assert(rest[b - 1 - a] == s@[b - 1]);
        }
        assert(space_suffix_len(rest) == len - b);
        assert(trim_of(s@) =~= s@.subrange(a as int, b as int));
    }
    s.substring_char(a, b).to_owned()
}

/// Splits a string on a separator character, keeping empty pieces.
pub fn split_str(s: &str, sep: char) -> (out: Vec<String>)
    ensures
        out.deep_view() == split_on(s@, sep),
{
    let len = s.unicode_len();
    let mut out: Vec<String> = Vec::new();
    let mut start: usize = 0;
    proof {
        assert(s@.skip(0) =~= s@);
        assert(out.deep_view() =~= Seq::<Seq<char>>::empty());
    }
    loop
        invariant
            0 <= start <= len,
            len == s@.len(),
            split_on(s@, sep) == out.deep_view() + split_on(s@.skip(start as int), sep),
            start > 0 ==> s@[start as int - 1] == sep,
        decreases len - start,
    {
        let mut j = start;
        while j < len && !ch_eq(s.get_char(j), sep)
            invariant
                start <= j <= len,
                len == s@.len(),
                forall|i: int| start <= i < j ==> #[trigger] s@[i] != sep,
            decreases len - j,
        {
            j = j + 1;
        }
        proof {
            let t = s@.skip(start as int);
            lemma_prefix_len_until(t, sep);
            assert forall|i: int| 0 <= i < j - start implies #[trigger] t[i] != sep by {
                assert(t[i] == s@[i + start]);
            }
            if j < len {
                assert(t[j - start] == s@[j as int]);
            }
            assert(prefix_len_until(t, sep) == j - start);
            assert(t.take(j - start) =~= s@.subrange(start as int, j as int));
        }
        let piece = s.substring_char(start, j).to_owned();
        let ghost pre = out.deep_view();
        out.push(piece);
        proof {
            let t = s@.skip(start as int);
            assert(out.deep_view() =~= pre + seq![s@.subrange(start as int, j as int)]);
        }
        if j == len {
            proof {
                let t = s@.skip(start as int);
                assert(t =~= s@.subrange(start as int, j as int));
                assert(split_on(t, sep) == seq![t]);
                assert(out.deep_view() + split_on(s@.skip(j as int + 1), sep) == out.deep_view()
                    + split_on(s@.skip(j as int + 1), sep));
                assert(split_on(s@, sep) =~= out.deep_view());
            }
            return out;
        }
        proof {
            let t = s@.skip(start as int);
            assert(split_on(t, sep) == seq![t.take(j - start)] + split_on(t.skip(j - start + 1),
                sep));
            assert(t.skip(j - start + 1) =~= s@.skip(j as int + 1));
            assert(split_on(s@, sep) =~= out.deep_view() + split_on(s@.skip(j as int + 1), sep));
        }
        start = j + 1;
    }
}

/// Character equality.
fn ch_eq(x: char, y: char) -> (r: bool)
    ensures
        r == (x == y),
{
    x == y
}

/// Splits a text into lines.
pub fn split_lines(s: &str) -> (out: Vec<String>)
    ensures
        out.deep_view() == lines_of(s@),
        forall|i: int| 0 <= i < out.deep_view().len() ==> #[trigger] out.deep_view()[i].len()
            <= s@.len(),
{
    let len = s.unicode_len();
    if len == 0 {
        let out: Vec<String> = Vec::new();
        proof {
            assert(out.deep_view() =~= lines_of(s@));
        }
        return out;
    }
    let body_end: usize = if ch_eq(s.get_char(len - 1), '\n') {
        len - 1
    } else {
        len
    };
    let body = s.substring_char(0, body_end).to_owned();
    proof {
        if s@.last() == '\n' {
            assert(body@ =~= s@.drop_last());
        } else {
            assert(body@ =~= s@);
        }
    }
    let raw = split_str(body.as_str(), '\n');
    let mut out: Vec<String> = Vec::new();
    let mut i: usize = 0;
    while i < raw.len()
        invariant
            0 <= i <= raw@.len(),
            out.deep_view().len() == i,
            forall|j: int| 0 <= j < i ==> #[trigger] out.deep_view()[j] == strip_cr(
                raw.deep_view()[j],
            ),
        decreases raw@.len() - i,
    {
        let line = &raw[i];
        let llen = line.as_str().unicode_len();
        let stripped = if llen > 0 && ch_eq(line.as_str().get_char(llen - 1), '\r') {
            line.as_str().substring_char(0, llen - 1).to_owned()
        } else {
            crate::layout::clone_string(line)
        };
        let ghost pre = out.deep_view();
        proof {
            assert(raw.deep_view()[i as int] == raw@[i as int]@);
            if llen > 0 && line@.last() == '\r' {
                assert(stripped@ =~= strip_cr(line@));
            }
        }
        out.push(stripped);
        proof {
            assert(out.deep_view() =~= pre.push(stripped@));
        }
        i = i + 1;
    }
    proof {
        assert(out.deep_view() =~= split_on(body@, '\n').map_values(
            |l: Seq<char>| strip_cr(l),
        ));
        lemma_split_bounds(body@, '\n');
        assert forall|k: int| 0 <= k < out.deep_view().len() implies #[trigger] out.deep_view()[
            k
        ].len() <= s@.len() by {
            assert(out.deep_view()[k] == strip_cr(split_on(body@, '\n')[k]));
            assert(split_on(body@, '\n')[k].len() <= body@.len());
        }
    }
    out
}

/// Parses a dataset text blob: the title line, the category line and the
/// value line; anything shorter degrades to an error-titled empty dataset.
pub fn parse_dataset(content: &str, kind: ChartKind) -> (d: Dataset)
    requires
        content@.len() < LEN_LIMIT,
    ensures
        d@ == spec_parse_dataset(content@, kind),
        d.well_formed(),
{
    let lines = split_lines(content);
    if lines.len() >= 3 {
        proof {
            assert(lines.deep_view()[0] == lines@[0]@);
            assert(lines.deep_view()[1] == lines@[1]@);
            assert(lines.deep_view()[2] == lines@[2]@);
        }
        let title = crate::layout::clone_string(&lines[0]);
        let cats_raw = split_str(lines[1].as_str(), ',');
        let mut categories: Vec<String> = Vec::new();
        let mut i: usize = 0;
        while i < cats_raw.len()
            invariant
                0 <= i <= cats_raw@.len(),
                categories.deep_view().len() == i,
                forall|j: int| 0 <= j < i ==> #[trigger] categories.deep_view()[j] == trim_of(
                    cats_raw.deep_view()[j],
                ),
            decreases cats_raw@.len() - i,
        {
            let t = trim_str(cats_raw[i].as_str());
            let ghost pre = categories.deep_view();
            proof {
                assert(cats_raw.deep_view()[i as int] == cats_raw@[i as int]@);
            }
            let ghost tv = t@;
            categories.push(t);
            proof {
                assert(categories.deep_view() =~= pre.push(tv));
            }
            i = i + 1;
        }
        let vals_raw = split_str(lines[2].as_str(), ',');
        let mut values: Vec<i64> = Vec::new();
        let mut v: usize = 0;
        while v < vals_raw.len()
            invariant
                0 <= v <= vals_raw@.len(),
                values@ == parsed_values(vals_raw.deep_view().take(v as int)),
                values@.len() <= v,
            decreases vals_raw@.len() - v,
        {
            let t = trim_str(vals_raw[v].as_str());
            proof {
                assert(vals_raw.deep_view()[v as int] == vals_raw@[v as int]@);
                assert(vals_raw.deep_view().take(v as int + 1).drop_last() =~= vals_raw.deep_view()
                    .take(v as int));
                assert(vals_raw.deep_view().take(v as int + 1).last() == vals_raw.deep_view()[
                    v as int
                ]);
            }
            match crate::numeral::parse_fixed(t.as_str()) {
                Some(x) => {
                    values.push(x);
                },
                None => {},
            }
            v = v + 1;
        }
        proof {
            assert(vals_raw.deep_view().take(vals_raw.deep_view().len() as int) =~= vals_raw
                .deep_view());
            let model = spec_parse_dataset(content@, kind);
            assert(categories.deep_view() =~= model.categories);
            lemma_split_bounds(lines.deep_view()[1], ',');
            lemma_split_bounds(lines.deep_view()[2], ',');
            lemma_parsed_values_bounds(vals_raw.deep_view());
        }
        let d = Dataset { title, categories, values, chart_type: kind };
        proof {
            assert(d@ == spec_parse_dataset(content@, kind));
        }
        d
    } else {
        let d = Dataset {
            title: "Error: Invalid data format".to_owned(),
            categories: Vec::new(),
            values: Vec::new(),
            chart_type: kind,
        };
        proof {
            assert(d@.categories =~= Seq::<Seq<char>>::empty());
            assert(d@.values =~= Seq::<i64>::empty());
        }
        d
    }
}

/// The dataset shown when the source text cannot be read at all.
pub fn error_dataset(kind: ChartKind) -> (d: Dataset)
    ensures
        d@.title == "Error loading data"@,
        d@.categories.len() == 0,
        d@.values.len() == 0,
        d@.chart_type == kind,
        d.well_formed(),
{
    let d = Dataset {
        title: "Error loading data".to_owned(),
        categories: Vec::new(),
        values: Vec::new(),
        chart_type: kind,
    };
    proof {
        assert(d@.categories =~= Seq::<Seq<char>>::empty());
    }
    d
}

} // verus!
