//! How much of the context window is used.

use crate::display::colors::Colors;
use crate::double::{bits_are_in_the_order_of_sizes, lemma_size, Double};
use crate::layout::format::{format_token_count, painted, token_count};
use crate::ratio::{
    dividing_keeps_the_order, lemma_two_to_positive, multiplying_keeps_the_order, nearest,
    nearest_whole, one_times_a_number_is_the_number, over, over_whole, round_half_up,
    rounding_keeps_the_order, sharpened, times, times_whole, two_to, whole_double, Binary, TWO_52,
    TWO_53,
};
use crate::text::{concat2, concat3, concat4, concat5, dec, repeat, run, u64_text};
use vstd::prelude::*;

verus! {

/// What the payload says of the context window.
#[derive(Debug, Clone, Copy, PartialEq, Eq, Structural)]
pub struct ContextWindow {
    pub total_input_tokens: Option<u64>,
    pub total_output_tokens: Option<u64>,
    pub context_window_size: Option<u64>,
    pub used_percentage: Option<Double>,
    pub remaining_percentage: Option<Double>,
}

/// Whether the conversation is being compacted.
#[derive(Debug, Clone, Copy, PartialEq, Eq, Structural)]
pub enum CompactionState {
    Normal,
    InProgress,
    RecentlyCompleted,
}

/// How much of the context window is used.
#[derive(Debug, Clone, Copy, PartialEq, Eq, Structural)]
pub struct ContextUsage {
    pub percentage: Double,
    pub approaching_limit: bool,
    pub tokens_remaining: u64,
    pub compaction_state: CompactionState,
}

/// The percentage that a payload gives or lets derive.
pub open spec fn payload_percentage(cw: ContextWindow) -> Option<Double> {
    match cw.used_percentage {
        Some(p) => Some(p),
        None => match (cw.total_input_tokens, cw.context_window_size) {
            (Some(t), Some(w)) => if w > 0 {
                Some(Double::ratio(t as nat, w as nat).times(100))
            } else {
                None
            },
            _ => None,
        },
    }
}

/// The usage that a payload shows, given from where on a compaction is near.
pub open spec fn payload_usage(cw: ContextWindow, threshold: Double) -> Option<ContextUsage> {
    match payload_percentage(cw) {
        None => None,
        Some(p) => Some(
            ContextUsage {
                percentage: if p.at_most(Double::whole(100)) {
                    p
                } else {
                    Double::whole(100)
                },
                approaching_limit: threshold.at_most(p),
                tokens_remaining: match (cw.context_window_size, cw.total_input_tokens) {
                    (Some(w), Some(t)) => if w > t {
                        (w - t) as u64
                    } else {
                        0
                    },
                    _ => 0,
                },
                compaction_state: CompactionState::Normal,
            },
        ),
    }
}

/// The tokens in use that a payload shows; a count above 32 bits keeps its low ones.
pub open spec fn payload_tokens(cw: ContextWindow) -> Option<u32> {
    match cw.total_input_tokens {
        Some(t) => Some((t % 0x1_0000_0000) as u32),
        None => None,
    }
}

fn low_half(t: u64) -> (r: u32)
    ensures
        r == t % 0x1_0000_0000,
{
    assert(t & 0xffff_ffff == t % 0x1_0000_0000) by (bit_vector);
    (t & 0xffff_ffff) as u32
}

/// The usage that a payload shows, with the tokens in use and the size of the window. A
/// payload that gives no percentage is read from its token counts; one that has neither
/// shows nothing.
pub fn context_usage_from_payload(cw: &ContextWindow, threshold: Double) -> (r: Option<
    (ContextUsage, Option<u32>, Option<u64>),
>)
    ensures
        match payload_usage(*cw, threshold) {
            Some(u) => r == Some((u, payload_tokens(*cw), cw.context_window_size)),
            None => r is None,
        },
{
    let p = match cw.used_percentage {
        Some(p) => p,
        None => match (cw.total_input_tokens, cw.context_window_size) {
            (Some(t), Some(w)) => {
                if w > 0 {
                    Double::of_ratio(t, w).product(100)
                } else {
                    return None;
                }
            },
            _ => {
                return None;
            },
        },
    };
    let tokens_remaining: u64 = match (cw.context_window_size, cw.total_input_tokens) {
        (Some(w), Some(t)) => w.saturating_sub(t),
        _ => 0,
    };
    let tokens: Option<u32> = match cw.total_input_tokens {
        Some(t) => Some(low_half(t)),
        None => None,
    };
    let full = Double::of_whole(100);
    let percentage = if p.not_above(&full) {
        p
    } else {
        full
    };
    Some(
        (
            ContextUsage {
                percentage,
                approaching_limit: threshold.not_above(&p),
                tokens_remaining,
                compaction_state: CompactionState::Normal,
            },
            tokens,
            cw.context_window_size,
        ),
    )
}

// ---------------------------------------------------------------------------
// The bar
// ---------------------------------------------------------------------------

/// How many cells of a bar a percentage fills: the nearest whole number, the larger of
/// two equally near, and never more than there are. One without binary places is so large
/// that it fills them all.
pub open spec fn filled_cells(percentage: Double, width: nat) -> nat {
    if percentage.is_nan() || percentage.is_negative() {
        0
    } else if percentage.is_infinite() || percentage.size().s < 0 {
        width
    } else {
        let n = times(over(percentage.size(), 100), nearest_whole(width)).rounded();
        if n > width {
            width
        } else {
            n
        }
    }
}

/// A bar: filled cells, an arrow unless it is full, empty cells.
pub open spec fn bar_cells(percentage: Double, width: nat) -> Seq<char> {
    let n = filled_cells(percentage, width);
    if n < width {
        run('=', n) + ">"@ + run('-', (width - n - 1) as nat)
    } else {
        run('=', n)
    }
}

fn count_filled(percentage: Double, width: usize) -> (r: usize)
    ensures
        r == filled_cells(percentage, width as nat),
{
    if percentage.no_number() || percentage.negative() {
        return 0;
    }
    if percentage.infinite() {
        return width;
    }
    let f = percentage.unpack();
    if f.s < 0 {
        return width;
    }
    let w: u128 = whole_double(width as u128);
    let n: u128 = round_half_up(times_whole(over_whole(f, 100), w));
    if n > width as u128 {
        width
    } else {
        n as usize
    }
}

fn bar_text(percentage: Double, width: usize) -> (r: String)
    ensures
        r@ == bar_cells(percentage, width as nat),
{
    let n: usize = count_filled(percentage, width);
    if n < width {
        concat3(repeat('=', n).as_str(), ">", repeat('-', width - n - 1).as_str())
    } else {
        repeat('=', n)
    }
}

/// A bar in brackets, without colours.
pub fn format_raw_bar(percentage: Double, width: usize) -> (r: String)
    ensures
        r@ == "["@ + bar_cells(percentage, width as nat) + "]"@,
{
    concat3("[", bar_text(percentage, width).as_str(), "]")
}

/// A bar has exactly the cells it was asked for.
pub proof fn bar_has_its_width(percentage: Double, width: nat)
    ensures
        bar_cells(percentage, width).len() == width,
{
    reveal_strlit(">");
}

/// A larger percentage never fills fewer cells.
pub proof fn bar_grows_with_percentage(a: Double, b: Double, width: nat)
    requires
        a.at_most(b),
    ensures
        filled_cells(a, width) <= filled_cells(b, width),
{
    if !a.is_negative() && a.is_finite() && b.is_finite() {
        lemma_size(a);
        lemma_size(b);
        let w = nearest_whole(width);
        let x = over(a.size(), 100);
        let y = over(b.size(), 100);
        if b.is_negative() {
            lemma_empty_bar(a, width);
        } else {
            bits_are_in_the_order_of_sizes(a, b);
            dividing_keeps_the_order(a.size(), b.size(), 100);
            multiplying_keeps_the_order(x, y, w);
            rounding_keeps_the_order(times(x, w), times(y, w));
        }
    }
}

proof fn lemma_empty_bar(p: Double, width: nat)
    requires
        p.bits == 0,
    ensures
        filled_cells(p, width) == 0,
{
    let x = over(p.size(), 100);
    let w = nearest_whole(width);
    assert(p.size() == (Binary { m: 0, s: 1074 }));
    assert(x.m == 0);
    assert(0 * w == 0);
    let y = times(x, w);
    assert(y.m == 0);
    assert(0 * two_to((-y.s) as nat) == 0);
    let b = y.bottom();
    lemma_two_to_positive(y.s as nat);
    assert((2 * 0 + b) / (2 * b) == 0) by (nonlinear_arith)
        requires
            b > 0,
    ;
}

/// A bar of a width that a double holds is full at a hundred percent; one of any width is
/// empty at none.
pub proof fn bar_reaches_both_ends(width: nat)
    ensures
        width < TWO_53 ==> filled_cells(Double::whole(100), width) == width,
        filled_cells(Double::zero(), width) == 0,
{
    lemma_empty_bar(Double::zero(), width);
    let hundred = Double::whole(100);
    assert(nearest(100, 1) == (Binary { m: 7_036_874_417_766_400, s: 46 })) by {
        reveal_with_fuel(sharpened, 48);
    }
    assert(hundred.bits == 0x4059_0000_0000_0000);
    assert(hundred.size() == (Binary { m: 7_036_874_417_766_400, s: 46 }));
    assert(over(hundred.size(), 100) == (Binary { m: TWO_52 as nat, s: 52 })) by {
        reveal_with_fuel(sharpened, 8);
    }
    if width < TWO_53 {
        one_times_a_number_is_the_number(width);
    }
}

/// Tokens in use and tokens there are, where both are known and wanted.
pub open spec fn token_display(
    colors: Colors,
    current: Option<u32>,
    window: Option<u64>,
    show_tokens: bool,
) -> Seq<char> {
    match (current, window) {
        (Some(c), Some(w)) => if show_tokens {
            " "@ + colors.code(colors.theme.light_gray@) + token_count(c as nat) + "/"@
                + token_count(w as nat) + colors.reset_code()
        } else {
            Seq::empty()
        },
        _ => Seq::empty(),
    }
}

fn token_display_text(
    colors: &Colors,
    current: Option<u32>,
    window: Option<u64>,
    show_tokens: bool,
) -> (r: String)
    ensures
        r@ == token_display(*colors, current, window, show_tokens),
{
    match (current, window) {
        (Some(c), Some(w)) => {
            if show_tokens {
                let front = concat4(
                    " ",
                    colors.light_gray().as_str(),
                    format_token_count(c as u64).as_str(),
                    "/",
                );
                concat3(
                    front.as_str(),
                    format_token_count(w).as_str(),
                    colors.reset().as_str(),
                )
            } else {
                String::new()
            }
        },
        _ => String::new(),
    }
}

/// Percentage and bar, in the colour of the percentage.
pub open spec fn percentage_and_bar(colors: Colors, percentage: Double, width: nat) -> Seq<char> {
    let color = colors.context_code(percentage);
    let reset = colors.reset_code();
    color + dec(percentage.rounded_count()) + "%"@ + reset + " "@ + (color + "["@ + bar_cells(
        percentage,
        width,
    ) + "]"@ + reset)
}

fn percentage_and_bar_text(colors: &Colors, percentage: Double, width: usize) -> (r: String)
    ensures
        r@ == percentage_and_bar(*colors, percentage, width as nat),
{
    let color = colors.context_color(percentage);
    let reset = colors.reset();
    let bar = concat5(
        color.as_str(),
        "[",
        bar_text(percentage, width).as_str(),
        "]",
        reset.as_str(),
    );
    let front = concat5(
        color.as_str(),
        u64_text(percentage.round_count() as u64).as_str(),
        "%",
        reset.as_str(),
        " ",
    );
    concat2(front.as_str(), bar.as_str())
}

/// The context on the line.
pub open spec fn context_piece(
    colors: Colors,
    usage: ContextUsage,
    current: Option<u32>,
    window: Option<u64>,
    width: nat,
    show_tokens: bool,
) -> Seq<char> {
    let tokens = token_display(colors, current, window, show_tokens);
    match usage.compaction_state {
        CompactionState::InProgress => painted(
            colors.code(colors.theme.yellow@),
            "Compacting..."@,
            colors.reset_code(),
        ) + tokens,
        CompactionState::RecentlyCompleted => percentage_and_bar(colors, usage.percentage, width)
            + " "@ + painted(colors.code(colors.theme.green@), "✓"@, colors.reset_code()) + tokens,
        CompactionState::Normal => if usage.approaching_limit {
            percentage_and_bar(colors, usage.percentage, width) + " "@ + painted(
                colors.code(colors.theme.orange@),
                "⚠"@,
                colors.reset_code(),
            ) + tokens
        } else {
            percentage_and_bar(colors, usage.percentage, width) + tokens
        },
    }
}

/// The context on the line: a percentage with a bar, a mark when a compaction is near or
/// was just done, or the word that one is under way.
pub fn format_context_bar(
    colors: &Colors,
    usage: &ContextUsage,
    current_tokens: Option<u32>,
    window_size: Option<u64>,
    width: usize,
    show_tokens: bool,
) -> (r: String)
    ensures
        r@ == context_piece(
            *colors,
            *usage,
            current_tokens,
            window_size,
            width as nat,
            show_tokens,
        ),
{
    let tokens = token_display_text(colors, current_tokens, window_size, show_tokens);
    let reset = colors.reset();
    match usage.compaction_state {
        CompactionState::InProgress => concat4(
            colors.yellow().as_str(),
            "Compacting...",
            reset.as_str(),
            tokens.as_str(),
        ),
        CompactionState::RecentlyCompleted => {
            let bar = percentage_and_bar_text(colors, usage.percentage, width);
            let mark = concat3(colors.green().as_str(), "✓", reset.as_str());
            concat4(bar.as_str(), " ", mark.as_str(), tokens.as_str())
        },
        CompactionState::Normal => {
            let bar = percentage_and_bar_text(colors, usage.percentage, width);
            if usage.approaching_limit {
                let mark = concat3(colors.orange().as_str(), "⚠", reset.as_str());
                concat4(bar.as_str(), " ", mark.as_str(), tokens.as_str())
            } else {
                concat2(bar.as_str(), tokens.as_str())
            }
        },
    }
}

} // verus!
