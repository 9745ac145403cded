use crate::message::{out_of_space_message, out_of_space_text, too_large_text};
use crate::rectangle::Rectangle;
use crate::rectangle_packer::{
    dimensions, first_rejected, regions, reports, sizes_fit, Attempt, RectanglePacker,
    RectanglePackerConfig, RectanglePackingError, RectanglePackingResult,
};
use crate::shelf::{
    bounds_for, floor_sqrt_ratio, lemma_floor_sqrt_ratio_small, lemma_run_extends, lemma_run_step,
    row_width, run, shelf_attempt, total_width, widest,
};
use crate::shelf_laws::{lemma_count_preserved, lemma_dimensions_kept, lemma_packed_above_bottom};
use crate::size::Size;
use crate::sort::{ascending, lemma_ascending_sorts, sort_sizes};
use vstd::prelude::*;

verus! {

/// A rectangle packer that fills rows with the rectangles in ascending order of height.
pub struct HeightRectPacker {}

/// The message of a failed attempt at shelf packing names the first size that is not
/// admitted, with the room that the maximum size leaves; where every size is admitted,
/// it says that the container was full.
pub open spec fn explains(
    message: Seq<char>,
    sizes: Seq<Size>,
    config: RectanglePackerConfig,
) -> bool {
    if sizes_fit(sizes, config) {
        message == out_of_space_text()
    } else {
        exists|i: int|
            {
                &&& #[trigger] first_rejected(sizes, config, i)
                &&& message == too_large_text(sizes[i], config.interior(config.max_size.unwrap()))
            }
    }
}

/// What holds of every layout that shelf packing completes: the rectangles have the
/// widths and heights of the sizes in ascending order, and none ends below the
/// container.
pub open spec fn in_rows(result: RectanglePackingResult, sizes: Seq<Size>) -> bool {
    &&& dimensions(result.rectangles@) == ascending(sizes)
    &&& forall|k: int|
        0 <= k < result.rectangles@.len() ==> (#[trigger] result.rectangles@[k]).y
            + result.rectangles@[k].height <= result.size.height
}

/// Computes the row width for a configuration without a maximum size.
fn chosen_row_width(sizes: &Vec<Size>, config: &RectanglePackerConfig) -> (width: u128)
    ensures
        width == row_width(sizes@, *config),
        width <= 5 * usize::MAX,
{
    let count = sizes.len();
    let mut total: u128 = 0;
    let mut greatest: usize = 0;
    let mut i: usize = 0;
    assert(usize::MAX * usize::MAX <= u128::MAX) by (nonlinear_arith)
        requires
            usize::MAX <= 0xffff_ffff_ffff_ffff,
            u128::MAX == 0xffff_ffff_ffff_ffff_ffff_ffff_ffff_ffff,
    ;
    while i < count
        invariant
            count == sizes.len(),
            i <= count,
            total == total_width(sizes@.take(i as int)),
            greatest == widest(sizes@.take(i as int)),
            total <= i * usize::MAX,
            usize::MAX * usize::MAX <= u128::MAX,
        decreases count - i,
    {
        let width = sizes[i].width;
        proof {
            assert(sizes@.take(i + 1).drop_last() =~= sizes@.take(i as int));
            assert((i + 1) * usize::MAX <= usize::MAX * usize::MAX) by (nonlinear_arith)
                requires
                    i + 1 <= usize::MAX,
            ;
            assert((i + 1) * usize::MAX == i * usize::MAX + usize::MAX) by (nonlinear_arith);
        }
        total = total + width as u128;
        if width > greatest {
            greatest = width;
        }
        i += 1;
    }
    let average: u128 = if count == 0 {
        0
    } else {
        total / count as u128
    };
    // With an average width below one the product is zero. Else there are at most as
    // many rectangles as units of width, and the root of their ratio is one or zero.
    let by_average: u128 = if average == 0 {
        0
    } else if total == count as u128 {
        2
    } else {
        average
    };
    proof {
        let per_row = floor_sqrt_ratio(count as nat, total as nat) + 1;
        if average != 0 {
            assert(total >= count) by (nonlinear_arith)
                requires
                    count > 0,
                    total / (count as u128) != 0,
                    total >= 0,
            ;
            lemma_floor_sqrt_ratio_small(count as nat, total as nat);
            assert(average <= usize::MAX) by (nonlinear_arith)
                requires
                    count > 0,
                    average == total as int / count as int,
                    total <= count * usize::MAX,
            ;
            if total == count as u128 {
                assert(average == 1) by (nonlinear_arith)
                    requires
                        count > 0,
                        average == total as int / count as int,
                        total == count,
                ;
            }
        }
        assert(by_average == average * per_row) by (nonlinear_arith)
            requires
                average == 0 ==> by_average == 0,
                average != 0 && per_row == 2 ==> average == 1 && by_average == 2,
                average != 0 && per_row != 2 ==> per_row == 1 && by_average == average,
        ;
    }
    let by_widest: u128 = greatest as u128 + 2 * (config.rectangle_padding as u128);
    let inner: u128 = if by_average > by_widest {
        by_average
    } else {
        by_widest
    };
    inner + 2 * (config.border_padding as u128)
}

impl HeightRectPacker {
    /// Packs rectangles of the given sizes in rows, or returns `None` where the
    /// layout does not fit in machine words.
    ///
    /// The sizes are taken in ascending order. The result holds the rectangles in
    /// that order, each at the place that `shelf_attempt` gives it; an error holds
    /// the rectangles placed until the container was full.
    pub fn try_pack(sizes: &Vec<Size>, config: &RectanglePackerConfig) -> (packed: Option<
        Result<RectanglePackingResult, RectanglePackingError>,
    >)
        ensures
            packed is Some <==> shelf_attempt(sizes@, *config).layout.representable(),
            packed matches Some(outcome) ==> reports(outcome, shelf_attempt(sizes@, *config)),
            packed matches Some(Ok(result)) ==> in_rows(result, sizes@),
            packed matches Some(Err(error)) ==> explains(error.message@, sizes@, *config),
    {
        let (width, max_height): (u128, Option<usize>) = match config.max_size {
            Some(max_size) => (max_size.width as u128, Some(max_size.height)),
            None => (chosen_row_width(sizes, config), None),
        };
        let ghost bounds = bounds_for(sizes@, *config);
        match Self::check_sizes(sizes, config) {
            Err(error) => {
                return Some(Err(error));
            },
            Ok(_) => {},
        }
        let sorted = sort_sizes(sizes);
        let border = config.border_padding as u128;
        let padding = config.rectangle_padding as u128;
        let mut rectangles: Vec<Rectangle> = Vec::new();
        let mut x: u128 = border + padding;
        let mut y: u128 = border + padding;
        let mut row_height: usize = 0;
        let mut i: usize = 0;
        while i < sorted.len()
            invariant
                i <= sorted.len(),
                bounds == bounds_for(sizes@, *config),
                width == bounds.width,
                width <= 5 * usize::MAX,
                match max_height {
                    Some(height) => bounds.height == Some(height as int),
                    None => bounds.height is None,
                },
                border == config.border_padding,
                padding == config.rectangle_padding,
                sizes_fit(sizes@, *config),
                x <= 2 * usize::MAX,
                y <= 2 * usize::MAX,
                !run(sorted@.take(i as int), bounds, *config).full,
                run(sorted@.take(i as int), bounds, *config).x == x,
                run(sorted@.take(i as int), bounds, *config).y == y,
                run(sorted@.take(i as int), bounds, *config).row_height == row_height,
                run(sorted@.take(i as int), bounds, *config).placed == regions(rectangles@),
                sorted@ == ascending(sizes@),
            decreases sorted.len() - i,
        {
            let size = sorted[i];
            let size_width = size.width as u128;
            let size_height = size.height as u128;
            proof {
                lemma_run_step(sorted@, i as int, bounds, *config);
                lemma_run_extends(sorted@, i + 1, bounds, *config);
            }
            let ghost after = run(sorted@.take(i + 1), bounds, *config);
            if x + size_width + padding + border > width {
                x = 0;
                y = y + size_height + 2 * padding;
                row_height = 0;
            }
            let full = match max_height {
                Some(height) => y + size_height + padding + border > height as u128,
                None => false,
            };
            if full {
                if x > usize::MAX as u128 || y > usize::MAX as u128 {
                    return None;
                }
                let result = RectanglePackingResult {
                    rectangles,
                    size: Size::new(x as usize, y as usize),
                };
                return Some(Err(RectanglePackingError { message: out_of_space_message(), result }));
            }
            x = x + size_width + 2 * padding;
            if x > usize::MAX as u128 || y > usize::MAX as u128 {
                proof {
                    let layout = shelf_attempt(sizes@, *config).layout;
                    let last = after.placed.len() - 1;
                    assert(layout.rectangles[last].x > usize::MAX || layout.rectangles[last].y
                        > usize::MAX);
                }
                return None;
            }
            if size.height > row_height {
                row_height = size.height;
            }
            rectangles.push(Rectangle::from_size(x as usize, y as usize, &size));
            i += 1;
        }
        proof {
            assert(sorted@.take(i as int) =~= sorted@);
        }
        let height = y + row_height as u128;
        if x > usize::MAX as u128 || height > usize::MAX as u128 {
            return None;
        }
        let result = RectanglePackingResult {
            rectangles,
            size: Size::new(x as usize, height as usize),
        };
        proof {
            lemma_count_preserved(sizes@, *config);
            assert forall|k: int| 0 <= k < result.rectangles@.len() implies {
                &&& dimensions(result.rectangles@)[k] == ascending(sizes@)[k]
                &&& (#[trigger] result.rectangles@[k]).y + result.rectangles@[k].height
                    <= result.size.height
            } by {
                lemma_dimensions_kept(sizes@, *config, k);
                lemma_packed_above_bottom(sizes@, *config, k);
            }
            lemma_ascending_sorts(sizes@);
            assert(dimensions(result.rectangles@) =~= ascending(sizes@));
        }
        Some(Ok(result))
    }
}

impl RectanglePacker for HeightRectPacker {
    /// Shelf packing: see [`shelf_attempt`].
    open spec fn attempt(sizes: Seq<Size>, config: RectanglePackerConfig) -> Attempt {
        shelf_attempt(sizes, config)
    }

    /// Packs rectangles of the given sizes in rows, the sizes taken in ascending order.
    ///
    /// The layout has to fit in machine words; `lemma_bounded_is_representable` names
    /// maximum sizes under which every layout does. `try_pack` takes any input.
    fn pack(sizes: &Vec<Size>, config: &RectanglePackerConfig) -> (outcome: Result<
        RectanglePackingResult,
        RectanglePackingError,
    >)
        ensures
            outcome matches Ok(result) ==> in_rows(result, sizes@),
            outcome matches Err(error) ==> explains(error.message@, sizes@, *config),
    {
        proof {
            lemma_ascending_sorts(sizes@);
        }
        match HeightRectPacker::try_pack(sizes, config) {
            Some(outcome) => outcome,
            None => vstd::pervasive::unreached(),
        }
    }
}

} // verus!
