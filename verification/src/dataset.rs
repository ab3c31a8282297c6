//! The dataset a chart render consumes: a title, ordered category labels,
//! ordered fixed-point values, and a chart kind.

use vstd::prelude::*;
use vstd::string::*;
use crate::scale::VALUE_LIMIT;

verus! {

/// The five chart layouts.  Any unrecognized selector falls back to `Bar`.
#[derive(Clone, Copy, PartialEq, Eq, Structural, Debug)]
pub enum ChartKind {
    /// Vertical bars with category and value labels.
    Bar,
    /// A polyline through the points, with markers and labels.
    Line,
    /// Circles, positioned numerically when every label is a numeral.
    Scatter,
    /// A filled region under the value curve.
    Area,
    /// Edge-to-edge frequency bars, without labels.
    Histogram,
}

/// An immutable chart data series.  Values are in milli-units; categories
/// and values are indexed in parallel and nothing forces equal lengths:
/// rendering uses the shorter of the two.
#[derive(Clone, PartialEq, Debug)]
pub struct Dataset {
    /// The chart title.
    pub title: String,
    /// Ordered category labels.
    pub categories: Vec<String>,
    /// Ordered values in milli-units.
    pub values: Vec<i64>,
    /// Which layout to draw.
    pub chart_type: ChartKind,
}

/// The mathematical image of a dataset.
pub ghost struct DatasetV {
    /// The chart title.
    pub title: Seq<char>,
    /// Ordered category labels.
    pub categories: Seq<Seq<char>>,
    /// Ordered values in milli-units.
    pub values: Seq<i64>,
    /// Which layout to draw.
    pub chart_type: ChartKind,
}

impl View for Dataset {
    type V = DatasetV;

    open spec fn view(&self) -> DatasetV {
        DatasetV {
            title: self.title@,
            categories: self.categories.deep_view(),
            values: self.values@,
            chart_type: self.chart_type,
        }
    }
}

/// Largest number of categories or values a dataset may hold.
pub const LEN_LIMIT: usize = 1_000_000_000;

impl Dataset {
    /// Every value stays within `VALUE_LIMIT` in magnitude, and both series
    /// are short enough that every layout coordinate fits machine integers.
    pub open spec fn well_formed(&self) -> bool {
        self.values@.len() <= LEN_LIMIT && self.categories@.len() <= LEN_LIMIT && forall|i: int|
            0 <= i < self.values@.len() ==> -VALUE_LIMIT <= #[trigger] self.values@[i]
            <= VALUE_LIMIT
    }

    /// The index range actually rendered: the shorter of the two series.
    pub fn effective_len(&self) -> (n: usize)
        ensures
            n == spec_effective_len(self@),
    {
        if self.categories.len() < self.values.len() {
            self.categories.len()
        } else {
            self.values.len()
        }
    }

    /// The scale maximum: the largest value, floored at zero.
    pub fn max_value(&self) -> (m: i64)
        requires
            self.well_formed(),
        ensures
            m == max_value_of(self@.values),
            0 <= m <= VALUE_LIMIT,
    {
        let mut m: i64 = 0;
        let mut i: usize = 0;
        while i < self.values.len()
            invariant
                0 <= i <= self.values@.len(),
                self.well_formed(),
                m == max_value_of(self@.values.take(i as int)),
                0 <= m <= VALUE_LIMIT,
            decreases self.values@.len() - i,
        {
            let v = self.values[i];
            if v > m {
                m = v;
            }
            proof {
                assert(self@.values.take(i as int + 1).drop_last() =~= self@.values.take(i as int));
            }
            i = i + 1;
        }
        proof {
            assert(self@.values.take(self.values@.len() as int) =~= self@.values);
        }
        m
    }
}

/// The index range actually rendered: the shorter of the two series.
pub open spec fn spec_effective_len(d: DatasetV) -> int {
    if d.categories.len() < d.values.len() {
        d.categories.len() as int
    } else {
        d.values.len() as int
    }
}

/// The largest value of the series, floored at zero.
pub open spec fn max_value_of(vs: Seq<i64>) -> int
    decreases vs.len(),
{
    if vs.len() == 0 {
        0
    } else {
        let rest = max_value_of(vs.drop_last());
        if vs.last() > rest {
            vs.last() as int
        } else {
            rest
        }
    }
}

/// Which chart layout a selector string names; anything unrecognized is a
/// bar chart.
pub open spec fn kind_of(s: Seq<char>) -> ChartKind {
    if s == "line"@ {
        ChartKind::Line
    } else if s == "scatter"@ {
        ChartKind::Scatter
    } else if s == "area"@ {
        ChartKind::Area
    } else if s == "histogram"@ {
        ChartKind::Histogram
    } else {
        ChartKind::Bar
    }
}

/// Character-wise string equality.
pub fn str_eq(a: &str, b: &str) -> (r: bool)
    ensures
        r == (a@ == b@),
{
    let la = a.unicode_len();
    let lb = b.unicode_len();
    if la != lb {
        proof {
            assert(a@.len() != b@.len());
        }
        return false;
    }
    let mut i: usize = 0;
    while i < la
        invariant
            0 <= i <= la,
            la == a@.len(),
            la == b@.len(),
            forall|j: int| 0 <= j < i ==> a@[j] == b@[j],
        decreases la - i,
    {
        if s_ne(a.get_char(i), b.get_char(i)) {
            return false;
        }
        i = i + 1;
    }
    proof {
        assert(a@ =~= b@);
    }
    true
}

/// Character inequality.
fn s_ne(x: char, y: char) -> (r: bool)
    ensures
        r == (x != y),
{
    x != y
}

/// Maps a selector string to its chart kind; unrecognized selectors fall
/// back to `Bar`.
pub fn chart_kind_of(s: &str) -> (k: ChartKind)
    ensures
        k == kind_of(s@),
{
    if str_eq(s, "line") {
        ChartKind::Line
    } else if str_eq(s, "scatter") {
        ChartKind::Scatter
    } else if str_eq(s, "area") {
        ChartKind::Area
    } else if str_eq(s, "histogram") {
        ChartKind::Histogram
    } else {
        ChartKind::Bar
    }
}

/// The display name of a chart kind.
pub open spec fn kind_title(k: ChartKind) -> Seq<char> {
    match k {
        ChartKind::Bar => "Bar"@,
        ChartKind::Line => "Line"@,
        ChartKind::Scatter => "Scatter"@,
        ChartKind::Area => "Area"@,
        ChartKind::Histogram => "Histogram"@,
    }
}

/// The window title a host shows for a dataset.
pub open spec fn spec_window_title(d: DatasetV) -> Seq<char> {
    "DuckDB "@ + kind_title(d.chart_type) + " - "@ + d.title
}

impl Dataset {
    /// Builds the window title: the tool name, the chart kind, and the
    /// dataset title.
    pub fn window_title(&self) -> (t: String)
        ensures
            t@ == spec_window_title(self@),
    {
        let mut t = "DuckDB ".to_owned();
        let name = match self.chart_type {
            ChartKind::Bar => "Bar",
            ChartKind::Line => "Line",
            ChartKind::Scatter => "Scatter",
            ChartKind::Area => "Area",
            ChartKind::Histogram => "Histogram",
        };
        t.append(name);
        t.append(" - ");
        t.append(self.title.as_str());
        proof {
            assert(t@ =~= spec_window_title(self@));
        }
        t
    }
}

} // verus!
