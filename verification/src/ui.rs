//! Titles shown on the graph panel.
use vstd::prelude::*;
use crate::app::{GraphDisplay, MethodChoice};
use crate::numbers::{decimal, decimal_spec};
use crate::text::push_all;
use crate::text::{chars_of, string_from_chars};

verus! {

/// The title of the graph panel in display mode `mode`.
pub open spec fn chart_title_spec(mode: GraphDisplay) -> Seq<char> {
    match mode {
        GraphDisplay::Solution => "y vs x"@,
        GraphDisplay::SlopeField => "slope field"@,
        GraphDisplay::Both => "y vs x + slope"@,
    }
}

/// Title for the chart block in the given display mode.
pub fn chart_title(mode: GraphDisplay) -> (res: &'static str)
    ensures
        res@ == chart_title_spec(mode),
{
    match mode {
        GraphDisplay::Solution => "y vs x",
        GraphDisplay::SlopeField => "slope field",
        GraphDisplay::Both => "y vs x + slope",
    }
}

/// A rectangle of terminal cells.
#[derive(Debug, Clone, Copy, PartialEq, Eq, Structural)]
pub struct Area {
    pub x: u16,
    pub y: u16,
    pub width: u16,
    pub height: u16,
}

/// The smaller of two numbers.
pub open spec fn min_u16(a: u16, b: u16) -> u16 {
    if a < b {
        a
    } else {
        b
    }
}

/// A `width` × `height` rectangle centered within `area`, clamped to its size.
pub open spec fn centered_rect_spec(width: u16, height: u16, area: Area) -> Area {
    let w = min_u16(width, area.width);
    let h = min_u16(height, area.height);
    Area {
        x: (area.x + (area.width - w) / 2) as u16,
        y: (area.y + (area.height - h) / 2) as u16,
        width: w,
        height: h,
    }
}

/// Compute a rectangle centered within `area`, clamped to its bounds.
pub fn centered_rect(width: u16, height: u16, area: Area) -> (res: Area)
    requires
        area.x + (area.width - min_u16(width, area.width)) / 2 <= u16::MAX,
        area.y + (area.height - min_u16(height, area.height)) / 2 <= u16::MAX,
    ensures
        res == centered_rect_spec(width, height, area),
{
    let width = if width < area.width {
        width
    } else {
        area.width
    };
    let height = if height < area.height {
        height
    } else {
        area.height
    };
    let x = area.x + (area.width.saturating_sub(width)) / 2;
    let y = area.y + (area.height.saturating_sub(height)) / 2;
    Area { x, y, width, height }
}

/// A centered rectangle lies within the area it is centered in, and its margins on the
/// two sides differ by at most one cell.
pub proof fn lemma_centered_rect_inside(width: u16, height: u16, area: Area)
    requires
        area.x + area.width <= u16::MAX,
        area.y + area.height <= u16::MAX,
    ensures
        ({
            let r = centered_rect_spec(width, height, area);
            &&& area.x <= r.x
            &&& r.x + r.width <= area.x + area.width
            &&& area.y <= r.y
            &&& r.y + r.height <= area.y + area.height
            &&& 0 <= (area.x + area.width - (r.x + r.width)) - (r.x - area.x) <= 1
            &&& 0 <= (area.y + area.height - (r.y + r.height)) - (r.y - area.y) <= 1
        }),
{
}

/// The legend entries `● label`, separated by two spaces.
pub open spec fn legend_entries(labels: Seq<Seq<char>>) -> Seq<char>
    decreases labels.len(),
{
    if labels.len() == 0 {
        seq![]
    } else if labels.len() == 1 {
        "\u{25CF} "@ + labels[0]
    } else {
        legend_entries(labels.drop_last()) + "  "@ + "\u{25CF} "@ + labels.last()
    }
}

/// The sidebar legend: the number of y₀ curves in family mode; nothing with all three
/// methods or at most one curve; otherwise one entry per curve label.
pub open spec fn legend_text_spec(y0_family: bool, choice: MethodChoice, labels: Seq<Seq<char>>) -> Seq<char> {
    if y0_family {
        decimal_spec(labels.len()) + " y\u{2080} curves"@
    } else if choice == MethodChoice::All || labels.len() <= 1 {
        seq![]
    } else {
        legend_entries(labels)
    }
}

/// Build the sidebar legend from the labels of the visible curves.
pub fn legend_text(y0_family_enabled: bool, choice: MethodChoice, labels: &[String]) -> (res: String)
    ensures
        res@ == legend_text_spec(y0_family_enabled, choice, labels@.map_values(|l: String| l@)),
{
    let ghost ls = labels@.map_values(|l: String| l@);
    if y0_family_enabled {
        let mut out = decimal(labels.len());
        push_all(&mut out, chars_of(" y\u{2080} curves").as_slice());
        return string_from_chars(out.as_slice());
    }
    if choice == MethodChoice::All || labels.len() <= 1 {
        assert(legend_text_spec(y0_family_enabled, choice, ls) =~= Seq::<char>::empty());
        return String::new();
    }
    let mut out: Vec<char> = Vec::new();
    let bullet = chars_of("\u{25CF} ");
    let gap = chars_of("  ");
    let mut i: usize = 0;
    while i < labels.len()
        invariant
            ls == labels@.map_values(|l: String| l@),
            i <= labels@.len(),
            bullet@ == "\u{25CF} "@,
            gap@ == "  "@,
            out@ == legend_entries(ls.take(i as int)),
        decreases labels.len() - i,
    {
        let label = chars_of(labels[i].as_str());
        if i > 0 {
            push_all(&mut out, gap.as_slice());
        }
        push_all(&mut out, bullet.as_slice());
        push_all(&mut out, label.as_slice());
        assert(ls.take(i + 1).drop_last() =~= ls.take(i as int));
        assert(ls.take(i + 1).last() == labels@[i as int]@);
        if i == 0 {
            assert(out@ =~= legend_entries(ls.take(1)));
        } else {
            assert(out@ =~= legend_entries(ls.take(i + 1)));
        }
        i += 1;
    }
    assert(ls.take(labels@.len() as int) =~= ls);
    string_from_chars(out.as_slice())
}

} // verus!
