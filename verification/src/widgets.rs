//! The text of the TUI's custom widgets: the spinner line and the download
//! bar. Drawing them into a terminal buffer is the caller's part.

use vstd::prelude::*;

verus! {

broadcast use vstd::string::group_string_axioms;

/// Animated spinner widget.
pub struct Spinner {
    pub frame: u64,
    pub message: String,
}

/// The spinner's animation frames.
pub open spec fn spinner_frames() -> Seq<Seq<char>> {
    seq!["⣾"@, "⣽"@, "⣻"@, "⢿"@, "⡿"@, "⣟"@, "⣯"@, "⣷"@]
}

/// The frame shown at animation step `frame`: each frame is held for two steps.
pub open spec fn spinner_frame(frame: u64) -> Seq<char> {
    spinner_frames()[(((frame / 2) as usize) % 8) as int]
}

impl Spinner {
    /// The spinner's line: two spaces, the current frame, two spaces, the message.
    pub fn line(&self) -> (r: String)
        ensures
            r@ == "  "@ + spinner_frame(self.frame) + "  "@ + self.message@,
    {
        let frames = ["⣾", "⣽", "⣻", "⢿", "⡿", "⣟", "⣯", "⣷"];
        let i = ((self.frame / 2) as usize) % 8;
        assert(frames@.map_values(|s: &str| s@) =~= spinner_frames());
        assert(frames@[i as int]@ == spinner_frames()[i as int]);
        let mut out = String::from_str("  ");
        out.append(frames[i]);
        out.append("  ");
        out.append(self.message.as_str());
        out
    }
}

/// Download progress bar.
pub struct DownloadBar {
    pub downloaded: u64,
    pub total: u64,
    pub filename: String,
}

/// The bar's cells for a widget `area_width` columns wide: four columns go to
/// the indent and the brackets.
pub open spec fn bar_width(area_width: u16) -> nat {
    if area_width >= 4 { (area_width - 4) as nat } else { 0 }
}

/// How many cells are filled: the downloaded share of the bar, rounded down
/// (and cut to 16 bits, as the drawing code does); none while the total is unknown.
pub open spec fn filled_cells(downloaded: u64, total: u64, area_width: u16) -> u16 {
    if total > 0 { ((bar_width(area_width) * downloaded) as int / total as int) as u16 } else { 0 }
}

/// The first `n` cells of a bar with `filled` filled cells.
pub open spec fn bar_cells(n: nat, filled: u16) -> Seq<char>
    decreases n,
{
    if n == 0 {
        Seq::empty()
    } else {
        bar_cells((n - 1) as nat, filled) + if n - 1 < filled { "█"@ } else { "░"@ }
    }
}

impl DownloadBar {
    /// The number of filled cells for a widget `area_width` columns wide. The
    /// bar width times the downloaded bytes must fit in 64 bits.
    pub fn filled(&self, area_width: u16) -> (r: u16)
        requires
            self.total > 0 ==> bar_width(area_width) * self.downloaded <= u64::MAX,
        ensures
            r == filled_cells(self.downloaded, self.total, area_width),
    {
        let bar_width: u64 = area_width.saturating_sub(4) as u64;
        if self.total > 0 {
            (bar_width * self.downloaded / self.total) as u16
        } else {
            0
        }
    }

    /// The bar's line: an indent, `[`, a filled cell `█` or an empty one `░`
    /// for each column of the bar, `]`.
    pub fn bar_line(&self, area_width: u16) -> (r: String)
        requires
            self.total > 0 ==> bar_width(area_width) * self.downloaded <= u64::MAX,
        ensures
            r@ == "  ["@ + bar_cells(bar_width(area_width), filled_cells(self.downloaded, self.total, area_width)) + "]"@,
    {
        let filled = self.filled(area_width);
        let width: u16 = area_width.saturating_sub(4);
        let mut out = String::from_str("  [");
        let mut x: u16 = 0;
        while x < width
            invariant
                x <= width,
                width == bar_width(area_width),
                filled == filled_cells(self.downloaded, self.total, area_width),
                out@ == "  ["@ + bar_cells(x as nat, filled),
            decreases width - x,
        {
            if x < filled {
                out.append("█");
            } else {
                out.append("░");
            }
            assert(bar_cells((x + 1) as nat, filled) == bar_cells(x as nat, filled) + if x < filled { "█"@ } else { "░"@ });
            x = x + 1;
        }
        out.append("]");
        out
    }
}

} // verus!
