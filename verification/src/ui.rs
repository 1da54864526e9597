//! Screen geometry: centring popups, fitting the footer's shortcut hints
//! into the terminal width, and picking a tag's colour.
use vstd::prelude::*;
use crate::app::Mode;

verus! {

/// A rectangle of terminal cells.
#[derive(Debug, Clone, Copy, PartialEq, Eq, Structural)]
pub struct Rect {
    pub x: u16,
    pub y: u16,
    pub width: u16,
    pub height: u16,
}

/// `a - b`, or 0 when `b > a`.
pub open spec fn sat_sub(a: int, b: int) -> int {
    if a >= b {
        a - b
    } else {
        0
    }
}

/// The width of a popup that takes `percent_x` percent of `area`'s width.
pub open spec fn popup_width(percent_x: u16, area: Rect) -> int {
    (area.width * percent_x) / 100
}

/// The popup's arithmetic stays within `u16`.
pub open spec fn centering_fits(percent_x: u16, lines: u16, area: Rect) -> bool {
    let width = popup_width(percent_x, area);
    let height = if lines <= area.height {
        lines as int
    } else {
        area.height as int
    };
    &&& area.width * percent_x <= u16::MAX
    &&& area.x + sat_sub(area.width as int, width) / 2 <= u16::MAX
    &&& area.y + sat_sub(area.height as int, height) / 2 <= u16::MAX
}

/// A rectangle `percent_x` percent as wide as `area` and `lines` rows high
/// (at most the area's height), centred in `area`.
pub fn centered_rect(percent_x: u16, lines: u16, area: Rect) -> (r: Rect)
    requires
        centering_fits(percent_x, lines, area),
    ensures
        r.width == popup_width(percent_x, area),
        r.height == if lines <= area.height {
            lines
        } else {
            area.height
        },
        r.x == area.x + sat_sub(area.width as int, r.width as int) / 2,
        r.y == area.y + sat_sub(area.height as int, r.height as int) / 2,
{
    let width = area.width * percent_x / 100;
    let height = if lines <= area.height {
        lines
    } else {
        area.height
    };
    let dx = if area.width >= width {
        area.width - width
    } else {
        0
    };
    let dy = if area.height >= height {
        area.height - height
    } else {
        0
    };
    Rect { x: area.x + dx / 2, y: area.y + dy / 2, width, height }
}

/// The sum of the first `k` widths.
pub open spec fn prefix_width(ws: Seq<usize>, k: int) -> int
    decreases k,
{
    if k <= 0 {
        0
    } else {
        prefix_width(ws, k - 1) + ws[k - 1]
    }
}

/// How many of the footer's hints are shown, and whether an ellipsis
/// follows them.
#[derive(Debug, Clone, Copy, PartialEq, Eq, Structural)]
pub struct FooterFit {
    pub shown: usize,
    pub ellipsis: bool,
}

/// The footer's fitting rule. The leading hints (`lead` cells wide) always
/// show. If all the other hints (of widths `ws`) fit within `max` cells they
/// all show; otherwise hints are taken in order while each, with the
/// ellipsis (`ellipsis` cells) after it, still fits, and the ellipsis ends
/// the line.
pub open spec fn footer_fit_spec(lead: usize, ws: Seq<usize>, ellipsis: usize, max: usize, fit: FooterFit) -> bool {
    if lead + prefix_width(ws, ws.len() as int) <= max {
        fit == FooterFit { shown: ws.len() as usize, ellipsis: false }
    } else {
        &&& fit.ellipsis
        &&& fit.shown <= ws.len()
        &&& fit.shown > 0 ==> lead + prefix_width(ws, fit.shown as int) + ellipsis <= max
        &&& fit.shown < ws.len() ==> lead + prefix_width(ws, fit.shown + 1) + ellipsis > max
    }
}

/// Widths only add up.
proof fn lemma_prefix_monotone(ws: Seq<usize>, a: int, b: int)
    requires
        0 <= a <= b <= ws.len(),
    ensures
        prefix_width(ws, a) <= prefix_width(ws, b),
    decreases b - a,
{
    if a < b {
        lemma_prefix_monotone(ws, a, b - 1);
    }
}

/// Decides how much of the footer fits into `max` cells; see
/// `footer_fit_spec`.
pub fn footer_fit(lead: usize, ws: &Vec<usize>, ellipsis: usize, max: usize) -> (fit: FooterFit)
    ensures
        footer_fit_spec(lead, ws@, ellipsis, max, fit),
{
    let n = ws.len();
    // Does everything fit?
    let mut all = lead <= max;
    if !all {
        proof {
            lemma_prefix_monotone(ws@, 0, n as int);
        }
    } else {
        let mut used: usize = lead;
        let mut i: usize = 0;
        while i < n
            invariant_except_break
                i <= n == ws@.len(),
                used == lead + prefix_width(ws@, i as int),
                used <= max,
                all,
            ensures
                all ==> lead + prefix_width(ws@, n as int) <= max,
                !all ==> lead + prefix_width(ws@, n as int) > max,
            decreases n - i,
        {
            if ws[i] <= max - used {
                used = used + ws[i];
                i += 1;
            } else {
                proof {
                    lemma_prefix_monotone(ws@, i + 1, n as int);
                }
                all = false;
                break;
            }
        }
    }
    if all {
        return FooterFit { shown: n, ellipsis: false };
    }
    // Take hints while each still leaves room for the ellipsis.
    let mut used: usize = lead;
    let mut k: usize = 0;
    while k < n
        invariant_except_break
            k <= n == ws@.len(),
            used == lead + prefix_width(ws@, k as int),
            k > 0 ==> lead + prefix_width(ws@, k as int) + ellipsis <= max,
        ensures
            k <= n,
            k > 0 ==> lead + prefix_width(ws@, k as int) + ellipsis <= max,
            k < n ==> lead + prefix_width(ws@, k + 1) + ellipsis > max,
        decreases n - k,
    {
        let w = ws[k];
        if used > max || w > max - used || ellipsis > max - used - w {
            break;
        }
        used = used + w;
        k += 1;
    }
    FooterFit { shown: k, ellipsis: true }
}

/// The number of colours tags are drawn in.
pub const TAG_PALETTE_LEN: u64 = 6;

/// The colour slot of a tag with hash `hash`: the same tag always gets the
/// same colour.
pub fn tag_palette_slot(hash: u64) -> (slot: usize)
    ensures
        slot == hash % TAG_PALETTE_LEN,
        slot < TAG_PALETTE_LEN,
{
    (hash % TAG_PALETTE_LEN) as usize
}


/// A shortcut hint: the key and what it does.
pub type Hint = (&'static str, &'static str);

/// The contents of hints.
pub open spec fn hint_views(v: Seq<Hint>) -> Seq<(Seq<char>, Seq<char>)> {
    v.map_values(|h: Hint| (h.0@, h.1@))
}

/// The footer's leading hints, always shown: help and quit while playing or
/// in Normal mode, none in the other modes.
pub open spec fn footer_lead(playing: bool, mode: Mode) -> Seq<(Seq<char>, Seq<char>)> {
    if playing || mode == Mode::Normal {
        seq![("?"@, "help"@), ("q"@, "quit"@)]
    } else {
        seq![]
    }
}

/// The footer's other hints, for the current mode.
pub open spec fn footer_body(playing: bool, mode: Mode) -> Seq<(Seq<char>, Seq<char>)> {
    if playing {
        seq![("space"@, "stop"@), ("+/-"@, "pause"@), ("</>"@, "speed"@)]
    } else {
        match mode {
            Mode::Search => seq![("type"@, "filter"@), ("Enter"@, "apply"@), ("Esc"@, "clear"@)],
            Mode::Add | Mode::Settings => seq![("Enter"@, "next/save"@), ("Esc"@, "cancel"@)],
            Mode::ConfirmDelete => seq![("y"@, "delete"@), ("n / Esc"@, "cancel"@)],
            Mode::Help => seq![("any key"@, "close"@)],
            Mode::Normal => seq![
                ("j/k"@, "move"@),
                ("p"@, "speak"@),
                ("space"@, "play"@),
                ("/"@, "search"@),
                ("a"@, "add"@),
                ("e"@, "edit"@),
                ("d"@, "delete"@),
                ("m"@, "star"@),
                ("s"@, "settings"@),
                ("+/-"@, "pause"@),
                ("</>"@, "speed"@),
            ],
        }
    }
}

/// Appends the hints of `src` to `out`.
fn push_hints(out: &mut Vec<Hint>, src: &[Hint])
    ensures
        final(out)@ == old(out)@ + src@,
{
    let n = src.len();
    let ghost start = out@;
    for i in 0..n
        invariant
            n == src@.len(),
            out@ == start + src@.take(i as int),
    {
        out.push(src[i]);
        assert(src@.take(i + 1) == src@.take(i as int).push(src@[i as int]));
    }
    assert(src@.take(n as int) == src@);
}

/// The footer's shortcut hints for the current state: the leading ones,
/// which always show, and the others, which are cut to the width.
pub fn footer_hints(playing: bool, mode: Mode) -> (r: (Vec<Hint>, Vec<Hint>))
    ensures
        hint_views(r.0@) == footer_lead(playing, mode),
        hint_views(r.1@) == footer_body(playing, mode),
{
    let mut lead: Vec<Hint> = Vec::new();
    let mut body: Vec<Hint> = Vec::new();
    if playing || mode == Mode::Normal {
        push_hints(&mut lead, &[("?", "help"), ("q", "quit")]);
    }
    if playing {
        push_hints(&mut body, &[("space", "stop"), ("+/-", "pause"), ("</>", "speed")]);
    } else {
        match mode {
            Mode::Search => push_hints(
                &mut body,
                &[("type", "filter"), ("Enter", "apply"), ("Esc", "clear")],
            ),
            Mode::Add | Mode::Settings => push_hints(
                &mut body,
                &[("Enter", "next/save"), ("Esc", "cancel")],
            ),
            Mode::ConfirmDelete => push_hints(&mut body, &[("y", "delete"), ("n / Esc", "cancel")]),
            Mode::Help => push_hints(&mut body, &[("any key", "close")]),
            Mode::Normal => push_hints(
                &mut body,
                &[
                    ("j/k", "move"),
                    ("p", "speak"),
                    ("space", "play"),
                    ("/", "search"),
                    ("a", "add"),
                    ("e", "edit"),
                    ("d", "delete"),
                    ("m", "star"),
                    ("s", "settings"),
                    ("+/-", "pause"),
                    ("</>", "speed"),
                ],
            ),
        }
    }
    assert(hint_views(lead@) =~= footer_lead(playing, mode));
    assert(hint_views(body@) =~= footer_body(playing, mode));
    (lead, body)
}

} // verus!
