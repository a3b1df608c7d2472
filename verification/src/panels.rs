//! The text of the model browser's detail panel and of the system
//! dashboard: which rows show, in what order, with what values. Styling and
//! drawing are the caller's part.

use vstd::prelude::*;

use crate::model::{format_label, opt_str_view, ModelInfo};
use crate::system::{GpuInfo, SystemInfo};
use crate::text::{decimal, with_decimal};
use crate::units::{bytes_text, mb_text};

verus! {

broadcast use vstd::string::group_string_axioms;

/// One line of a panel.
pub enum PanelLine {
    Blank,
    /// A section heading.
    Heading(String),
    /// A line of dim text.
    Note(String),
    /// A labelled value.
    Field { label: String, value: String },
    /// A labelled count, shown in billions with one decimal (`{:.1}B`);
    /// the caller does that floating-point formatting.
    Billions { label: String, count: u64 },
}

pub enum PanelLineView {
    Blank,
    Heading(Seq<char>),
    Note(Seq<char>),
    Field(Seq<char>, Seq<char>),
    Billions(Seq<char>, u64),
}

impl View for PanelLine {
    type V = PanelLineView;

    open spec fn view(&self) -> PanelLineView {
        match self {
            PanelLine::Blank => PanelLineView::Blank,
            PanelLine::Heading(t) => PanelLineView::Heading(t@),
            PanelLine::Note(t) => PanelLineView::Note(t@),
            PanelLine::Field { label, value } => PanelLineView::Field(label@, value@),
            PanelLine::Billions { label, count } => PanelLineView::Billions(label@, *count),
        }
    }
}

pub open spec fn lines_view(v: Seq<PanelLine>) -> Seq<PanelLineView> {
    Seq::new(v.len(), |i: int| v[i]@)
}

pub open spec fn field(label: Seq<char>, value: Seq<char>) -> Seq<PanelLineView> {
    seq![PanelLineView::Field(label, value)]
}

/// A field when the value is known, else nothing.
pub open spec fn opt_field(label: Seq<char>, value: Option<Seq<char>>) -> Seq<PanelLineView> {
    match value {
        Some(v) => field(label, v),
        None => Seq::empty(),
    }
}

pub open spec fn opt_number(n: Option<u64>, suffix: Seq<char>) -> Option<Seq<char>> {
    match n {
        Some(v) => Some(decimal(v as nat) + suffix),
        None => None,
    }
}

/// The detail rows of a model: name, format and size, then whatever the GGUF
/// header told (architecture, context, layers, heads, vocabulary, parameter
/// count, GGUF version).
pub open spec fn model_detail_lines(m: ModelInfo) -> Seq<PanelLineView> {
    field("Name:"@, m.name@) + field("Format:"@, format_label(m.format@)) + field("Size:"@, bytes_text(m.size_bytes))
        + opt_field("Architecture:"@, opt_str_view(m.architecture))
        + opt_field("Context:"@, opt_number(m.context_length, " tokens"@))
        + opt_field("Layers:"@, opt_number(m.layer_count, ""@))
        + opt_field("Heads:"@, opt_number(m.head_count, ""@))
        + opt_field("Vocab:"@, opt_number(m.vocab_size, " tokens"@))
        + match m.parameter_count {
            Some(p) => seq![PanelLineView::Billions("Parameters:"@, p)],
            None => Seq::empty(),
        }
        + opt_field("GGUF Version:"@, opt_number(
            match m.gguf_version {
                Some(v) => Some(v as u64),
                None => None,
            },
            ""@,
        ))
}

/// The rows of the GPUs: each one's name, and its memory when known.
pub open spec fn gpu_lines(gs: Seq<GpuInfo>) -> Seq<PanelLineView>
    decreases gs.len(),
{
    if gs.len() == 0 {
        Seq::empty()
    } else {
        gpu_lines(gs.drop_last()) + field("Name:"@, gs.last().name@)
            + opt_field("VRAM:"@, opt_number(gs.last().vram_total_mb, "MB"@))
    }
}

/// The system dashboard's rows: CPU, memory, the GPUs when there are any,
/// and the platform; a note while the hardware has not been read.
pub open spec fn dashboard_lines(info: Option<SystemInfo>) -> Seq<PanelLineView> {
    match info {
        None => seq![PanelLineView::Note("  Loading system info..."@)],
        Some(i) => seq![PanelLineView::Heading("  ─── CPU ──────────────────────────"@)] + field("Model:"@, i.cpu_model@)
            + field("Physical cores:"@, decimal(i.cpu_cores as nat)) + field("Logical threads:"@, decimal(i.cpu_threads as nat))
            + seq![PanelLineView::Blank, PanelLineView::Heading("  ─── Memory ────────────────────────"@)]
            + field("Total RAM:"@, mb_text(i.total_ram_mb)) + field("Available RAM:"@, mb_text(i.available_ram_mb))
            + (if i.gpu_info@.len() > 0 {
                seq![PanelLineView::Blank, PanelLineView::Heading("  ─── GPU ──────────────────────────"@)] + gpu_lines(i.gpu_info@)
            } else {
                Seq::empty()
            })
            + seq![PanelLineView::Blank, PanelLineView::Heading("  ─── Platform ─────────────────────"@)]
            + field("OS:"@, i.os@) + field("Architecture:"@, i.arch@),
    }
}

fn push_line(out: &mut Vec<PanelLine>, line: PanelLine)
    ensures
        lines_view(final(out)@) == lines_view(old(out)@).push(line@),
{
    out.push(line);
    assert(lines_view(final(out)@) =~= lines_view(old(out)@).push(line@));
}

/// The decimal text of a number.
fn number_text(n: u64) -> (r: String)
    ensures
        r@ == decimal(n as nat),
{
    proof {
        reveal_strlit("");
    }
    let r = with_decimal("", n);
    assert(""@ + decimal(n as nat) =~= decimal(n as nat));
    r
}

fn push_field(out: &mut Vec<PanelLine>, label: &str, value: String)
    ensures
        lines_view(final(out)@) == lines_view(old(out)@) + field(label@, value@),
{
    let l = PanelLine::Field { label: label.to_string(), value };
    push_line(out, l);
    assert(lines_view(final(out)@) =~= lines_view(old(out)@) + field(label@, value@));
}

fn push_number(out: &mut Vec<PanelLine>, label: &str, n: Option<u64>, suffix: &str)
    ensures
        lines_view(final(out)@) == lines_view(old(out)@) + opt_field(label@, opt_number(n, suffix@)),
{
    match n {
        Some(v) => {
            let mut t = number_text(v);
            t.append(suffix);
            push_field(out, label, t);
        },
        None => {
            assert(lines_view(old(out)@) + Seq::<PanelLineView>::empty() =~= lines_view(old(out)@));
        },
    }
}

/// The detail rows the model browser shows for a model.
pub fn model_detail(m: &ModelInfo) -> (r: Vec<PanelLine>)
    ensures
        lines_view(r@) == model_detail_lines(*m),
{
    let mut out: Vec<PanelLine> = Vec::new();
    assert(lines_view(out@) =~= Seq::<PanelLineView>::empty());
    push_field(&mut out, "Name:", m.name.clone());
    push_field(&mut out, "Format:", m.format.label().to_string());
    push_field(&mut out, "Size:", m.size_display());
    let ghost before_arch = lines_view(out@);
    match &m.architecture {
        Some(a) => push_field(&mut out, "Architecture:", a.clone()),
        None => {},
    }
    assert(lines_view(out@) =~= before_arch + opt_field("Architecture:"@, opt_str_view(m.architecture)));
    push_number(&mut out, "Context:", m.context_length, " tokens");
    push_number(&mut out, "Layers:", m.layer_count, "");
    push_number(&mut out, "Heads:", m.head_count, "");
    push_number(&mut out, "Vocab:", m.vocab_size, " tokens");
    let ghost before_params = lines_view(out@);
    match m.parameter_count {
        Some(p) => push_line(&mut out, PanelLine::Billions { label: "Parameters:".to_string(), count: p }),
        None => {},
    }
    let ghost params = match m.parameter_count {
        Some(p) => seq![PanelLineView::Billions("Parameters:"@, p)],
        None => Seq::<PanelLineView>::empty(),
    };
    assert(lines_view(out@) =~= before_params + params);
    let version: Option<u64> = match m.gguf_version {
        Some(v) => Some(v as u64),
        None => None,
    };
    push_number(&mut out, "GGUF Version:", version, "");
    assert(lines_view(out@) =~= model_detail_lines(*m));
    out
}

/// The system dashboard's rows for the hardware read, if it has been.
pub fn dashboard(info: Option<&SystemInfo>) -> (r: Vec<PanelLine>)
    ensures
        lines_view(r@) == dashboard_lines(match info {
            Some(i) => Some(*i),
            None => None,
        }),
{
    let mut out: Vec<PanelLine> = Vec::new();
    assert(lines_view(out@) =~= Seq::<PanelLineView>::empty());
    match info {
        None => {
            push_line(&mut out, PanelLine::Note("  Loading system info...".to_string()));
            assert(lines_view(out@) =~= dashboard_lines(None));
        },
        Some(i) => {
            push_line(&mut out, PanelLine::Heading("  ─── CPU ──────────────────────────".to_string()));
            push_field(&mut out, "Model:", i.cpu_model.clone());
            push_field(&mut out, "Physical cores:", number_text(i.cpu_cores as u64));
            push_field(&mut out, "Logical threads:", number_text(i.cpu_threads as u64));
            push_line(&mut out, PanelLine::Blank);
            push_line(&mut out, PanelLine::Heading("  ─── Memory ────────────────────────".to_string()));
            push_field(&mut out, "Total RAM:", i.ram_display());
            push_field(&mut out, "Available RAM:", i.available_ram_display());
            let ghost before_gpu = lines_view(out@);
            if i.gpu_info.len() > 0 {
                push_line(&mut out, PanelLine::Blank);
                push_line(&mut out, PanelLine::Heading("  ─── GPU ──────────────────────────".to_string()));
                let ghost head = lines_view(out@);
                let mut k: usize = 0;
                assert(i.gpu_info@.take(0) =~= Seq::<GpuInfo>::empty());
                assert(head + gpu_lines(Seq::<GpuInfo>::empty()) =~= head);
                while k < i.gpu_info.len()
                    invariant
                        k <= i.gpu_info@.len(),
                        lines_view(out@) == head + gpu_lines(i.gpu_info@.take(k as int)),
                    decreases i.gpu_info@.len() - k,
                {
                    let g = &i.gpu_info[k];
                    let ghost prev = lines_view(out@);
                    push_field(&mut out, "Name:", g.name.clone());
                    push_number(&mut out, "VRAM:", g.vram_total_mb, "MB");
                    assert(i.gpu_info@.take(k + 1).drop_last() =~= i.gpu_info@.take(k as int));
                    assert(i.gpu_info@.take(k + 1).last() == *g);
                    assert(lines_view(out@) =~= head + gpu_lines(i.gpu_info@.take(k + 1)));
                    k = k + 1;
                }
                assert(i.gpu_info@.take(k as int) =~= i.gpu_info@);
            }
            let ghost gpu_part = if i.gpu_info@.len() > 0 {
                seq![PanelLineView::Blank, PanelLineView::Heading("  ─── GPU ──────────────────────────"@)] + gpu_lines(i.gpu_info@)
            } else {
                Seq::<PanelLineView>::empty()
            };
            assert(lines_view(out@) =~= before_gpu + gpu_part);
            push_line(&mut out, PanelLine::Blank);
            push_line(&mut out, PanelLine::Heading("  ─── Platform ─────────────────────".to_string()));
            push_field(&mut out, "OS:", i.os.clone());
            push_field(&mut out, "Architecture:", i.arch.clone());
            assert(lines_view(out@) =~= dashboard_lines(Some(*i)));
        },
    }
    out
}

} // verus!
