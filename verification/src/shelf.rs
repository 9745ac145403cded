use crate::rectangle::Region;
use crate::rectangle_packer::{sizes_fit, Attempt, Layout, RectanglePackerConfig, Verdict};
use crate::size::Size;
use crate::sort::ascending;
use vstd::prelude::*;

verus! {

/// The container in which rows are laid out. Its width ends a row; its height, where
/// there is one, ends the layout.
pub struct Bounds {
    pub width: int,
    pub height: Option<int>,
}

/// The state of a placement pass.
pub struct Shelf {
    /// The rectangles placed so far, in the order of placement.
    pub placed: Seq<Region>,
    /// The horizontal cursor in the current row.
    pub x: int,
    /// The top of the current row.
    pub y: int,
    /// The height of the tallest rectangle in the current row.
    pub row_height: int,
    /// The pass has come to a size for which no room was left, and has stopped.
    pub full: bool,
}

/// Adds the width of a size to a sum.
pub open spec fn add_width() -> spec_fn(int, Size) -> int {
    |sum: int, size: Size| sum + size.width
}

/// Keeps the greater of a width and the width of a size.
pub open spec fn wider() -> spec_fn(int, Size) -> int {
    |width: int, size: Size|
        if size.width > width {
            size.width as int
        } else {
            width
        }
}

/// The sum of the widths of `sizes`.
pub open spec fn total_width(sizes: Seq<Size>) -> int {
    sizes.fold_left(0int, add_width())
}

/// The greatest width among `sizes`, zero where there is none.
pub open spec fn widest(sizes: Seq<Size>) -> int {
    sizes.fold_left(0int, wider())
}

/// The square of `k` is at most `n / d`, and the square of `k + 1` is beyond it.
pub open spec fn squares_around(k: nat, n: nat, d: nat) -> bool {
    k * k * d <= n < (k + 1) * (k + 1) * d
}

/// The square root of `n / d`, rounded down. Meant for a positive `d`.
pub open spec fn floor_sqrt_ratio(n: nat, d: nat) -> nat {
    choose|k: nat| squares_around(k, n, d)
}

/// Where there are at most as many rectangles as units of width, the root of their
/// ratio is one if the two are equal and zero otherwise.
pub proof fn lemma_floor_sqrt_ratio_small(n: nat, d: nat)
    requires
        0 < n <= d,
    ensures
        floor_sqrt_ratio(n, d) == (if n == d {
            1nat
        } else {
            0nat
        }),
{
    let root = if n == d {
        1nat
    } else {
        0nat
    };
    assert(squares_around(root, n, d)) by (nonlinear_arith)
        requires
            0 < n <= d,
            root == (if n == d {
                1nat
            } else {
                0nat
            }),
    ;
    let k = floor_sqrt_ratio(n, d);
    assert(k == root) by (nonlinear_arith)
        requires
            0 < n <= d,
            k * k * d <= n < (k + 1) * (k + 1) * d,
            root == (if n == d {
                1nat
            } else {
                0nat
            }),
    ;
}

/// The row width chosen where the configuration sets no maximum size: the average
/// width times the root of the number of rectangles per unit of width, plus one; but
/// room for the widest rectangle with its padding at least; and the border on both
/// sides.
pub open spec fn row_width(sizes: Seq<Size>, config: RectanglePackerConfig) -> int {
    let count = sizes.len();
    let total = total_width(sizes);
    let average = if count == 0 {
        0
    } else {
        total / (count as int)
    };
    let per_row = floor_sqrt_ratio(count, total as nat) + 1;
    let by_average = average * per_row;
    let by_widest = widest(sizes) + 2 * config.rectangle_padding;
    (if by_average > by_widest {
        by_average
    } else {
        by_widest
    }) + 2 * config.border_padding
}

/// The container for `sizes`: the maximum size where the configuration sets one, else
/// rows of the chosen width in any number.
pub open spec fn bounds_for(sizes: Seq<Size>, config: RectanglePackerConfig) -> Bounds {
    match config.max_size {
        Some(max_size) => Bounds {
            width: max_size.width as int,
            height: Some(max_size.height as int),
        },
        None => Bounds { width: row_width(sizes, config), height: None },
    }
}

/// The pass before the first size: the cursor stands inside the border and the padding
/// of the first rectangle.
pub open spec fn start(config: RectanglePackerConfig) -> Shelf {
    Shelf {
        placed: Seq::empty(),
        x: config.border_padding + config.rectangle_padding,
        y: config.border_padding + config.rectangle_padding,
        row_height: 0,
        full: false,
    }
}

/// One step of the pass. Where `size` with its padding would pass the right border, a
/// new row begins at `x = 0`, lower by the height of `size` and its padding. Where it
/// would then pass the bottom border, the pass stops. Else the cursor moves past the
/// rectangle and its padding, and the rectangle is recorded at the cursor's new place.
pub open spec fn place(
    shelf: Shelf,
    size: Size,
    bounds: Bounds,
    config: RectanglePackerConfig,
) -> Shelf {
    let wraps = shelf.x + size.width + config.rectangle_padding > bounds.width
        - config.border_padding;
    let x = if wraps {
        0
    } else {
        shelf.x
    };
    let y = if wraps {
        shelf.y + size.height + 2 * config.rectangle_padding
    } else {
        shelf.y
    };
    let row_height = if wraps {
        0
    } else {
        shelf.row_height
    };
    if bounds.height is Some && y + size.height + config.rectangle_padding > bounds.height.unwrap()
        - config.border_padding {
        Shelf { placed: shelf.placed, x, y, row_height, full: true }
    } else {
        let x = x + size.width + 2 * config.rectangle_padding;
        Shelf {
            placed: shelf.placed.push(
                Region { x, y, width: size.width as int, height: size.height as int },
            ),
            x,
            y,
            row_height: if size.height > row_height {
                size.height as int
            } else {
                row_height
            },
            full: false,
        }
    }
}

/// The pass over `sizes` from first to last, up to the size at which it stops.
pub open spec fn run(sizes: Seq<Size>, bounds: Bounds, config: RectanglePackerConfig) -> Shelf
    decreases sizes.len(),
{
    if sizes.len() == 0 {
        start(config)
    } else {
        let before = run(sizes.drop_last(), bounds, config);
        if before.full {
            before
        } else {
            place(before, sizes.last(), bounds, config)
        }
    }
}

/// What shelf packing makes of `sizes`. Where some size is not admitted, nothing is
/// placed. Else the sizes are placed in ascending order. A pass that stops leaves the
/// cursor as the size of the layout; a pass that ends leaves the cursor's `x` as the
/// width, and the bottom of the last row as the height.
pub open spec fn shelf_attempt(sizes: Seq<Size>, config: RectanglePackerConfig) -> Attempt {
    if !sizes_fit(sizes, config) {
        Attempt { verdict: Verdict::Infeasible, layout: Layout::empty() }
    } else {
        let shelf = run(ascending(sizes), bounds_for(sizes, config), config);
        if shelf.full {
            Attempt {
                verdict: Verdict::Overflow,
                layout: Layout { rectangles: shelf.placed, width: shelf.x, height: shelf.y },
            }
        } else {
            Attempt {
                verdict: Verdict::Packed,
                layout: Layout {
                    rectangles: shelf.placed,
                    width: shelf.x,
                    height: shelf.y + shelf.row_height,
                },
            }
        }
    }
}

/// A pass over the first `n` sizes is the beginning of the pass over all of them: what
/// it has placed stays in place, and where it has stopped, the whole pass has stopped.
pub proof fn lemma_run_extends(
    sizes: Seq<Size>,
    n: int,
    bounds: Bounds,
    config: RectanglePackerConfig,
)
    requires
        0 <= n <= sizes.len(),
    ensures
        run(sizes.take(n), bounds, config).full ==> run(sizes, bounds, config) == run(
            sizes.take(n),
            bounds,
            config,
        ),
        run(sizes.take(n), bounds, config).placed.len() <= run(sizes, bounds, config).placed.len(),
        forall|k: int|
            0 <= k < run(sizes.take(n), bounds, config).placed.len() ==> run(
                sizes,
                bounds,
                config,
            ).placed[k] == run(sizes.take(n), bounds, config).placed[k],
    decreases sizes.len(),
{
    if n == sizes.len() {
        assert(sizes.take(n) =~= sizes);
    } else {
        assert(sizes.drop_last().take(n) =~= sizes.take(n));
        lemma_run_extends(sizes.drop_last(), n, bounds, config);
    }
}

/// The pass over the first `n + 1` sizes is the pass over the first `n`, and one step
/// with the size at index `n` unless it had stopped.
pub proof fn lemma_run_step(sizes: Seq<Size>, n: int, bounds: Bounds, config: RectanglePackerConfig)
    requires
        0 <= n < sizes.len(),
    ensures
        run(sizes.take(n + 1), bounds, config) == (if run(sizes.take(n), bounds, config).full {
            run(sizes.take(n), bounds, config)
        } else {
            place(run(sizes.take(n), bounds, config), sizes[n], bounds, config)
        }),
{
    assert(sizes.take(n + 1).drop_last() =~= sizes.take(n));
}

} // verus!
