use crate::rectangle::Region;
use crate::rectangle_packer::{sizes_fit, Attempt, Layout, RectanglePackerConfig, Verdict};
use crate::shelf::{
    add_width, bounds_for, row_width, run, shelf_attempt, total_width, wider, widest, Bounds,
};
use crate::size::{size_order, Size};
use crate::sort::{ascending, lemma_ascending_of_permutation, lemma_ascending_sorts};
use vstd::prelude::*;
use vstd::relations::sorted_by;
use vstd::seq_lib::{commutative_foldl, lemma_fold_left_permutation};

verus! {

/// A pass places the sizes one by one: it has placed no more rectangles than there are
/// sizes, all of them unless it has stopped, and the rectangle at each index has the
/// width and the height of the size at that index.
pub proof fn lemma_run_keeps_sizes(sizes: Seq<Size>, bounds: Bounds, config: RectanglePackerConfig)
    ensures
        run(sizes, bounds, config).placed.len() <= sizes.len(),
        !run(sizes, bounds, config).full ==> run(sizes, bounds, config).placed.len()
            == sizes.len(),
        forall|k: int|
            0 <= k < run(sizes, bounds, config).placed.len() ==> {
                &&& (#[trigger] run(sizes, bounds, config).placed[k]).width == sizes[k].width
                &&& run(sizes, bounds, config).placed[k].height == sizes[k].height
            },
    decreases sizes.len(),
{
    if sizes.len() > 0 {
        lemma_run_keeps_sizes(sizes.drop_last(), bounds, config);
    }
}

/// A pass never moves the cursor into the negative, and records every rectangle at a
/// place that is not negative.
pub proof fn lemma_run_not_negative(sizes: Seq<Size>, bounds: Bounds, config: RectanglePackerConfig)
    ensures
        run(sizes, bounds, config).x >= 0,
        run(sizes, bounds, config).y >= 0,
        run(sizes, bounds, config).row_height >= 0,
        forall|k: int|
            0 <= k < run(sizes, bounds, config).placed.len() ==> {
                &&& (#[trigger] run(sizes, bounds, config).placed[k]).x >= 0
                &&& run(sizes, bounds, config).placed[k].y >= 0
            },
    decreases sizes.len(),
{
    if sizes.len() > 0 {
        lemma_run_not_negative(sizes.drop_last(), bounds, config);
    }
}

/// In a pass over sizes in ascending order that has not stopped, no rectangle reaches
/// below the bottom of the current row, and the current row is no taller than the last
/// size.
pub proof fn lemma_run_rows(sizes: Seq<Size>, bounds: Bounds, config: RectanglePackerConfig)
    requires
        sorted_by(sizes, size_order()),
        !run(sizes, bounds, config).full,
    ensures
        sizes.len() == 0 ==> run(sizes, bounds, config).row_height == 0,
        sizes.len() > 0 ==> run(sizes, bounds, config).row_height <= sizes.last().height,
        forall|k: int|
            0 <= k < run(sizes, bounds, config).placed.len() ==> (#[trigger] run(
                sizes,
                bounds,
                config,
            ).placed[k]).y + run(sizes, bounds, config).placed[k].height <= run(
                sizes,
                bounds,
                config,
            ).y + run(sizes, bounds, config).row_height,
    decreases sizes.len(),
{
    if sizes.len() > 0 {
        let earlier = sizes.drop_last();
        assert forall|i: int, j: int| 0 <= i < j < earlier.len() implies size_order()(
            earlier[i],
            earlier[j],
        ) by {}
        lemma_run_rows(earlier, bounds, config);
        if earlier.len() > 0 {
            assert(size_order()(sizes[earlier.len() - 1], sizes[sizes.len() - 1]));
        }
    }
}

/// Count preservation: where shelf packing succeeds, it has placed as many
/// rectangles as there are sizes. It never places more.
pub proof fn lemma_count_preserved(sizes: Seq<Size>, config: RectanglePackerConfig)
    ensures
        shelf_attempt(sizes, config).layout.rectangles.len() <= sizes.len(),
        shelf_attempt(sizes, config).verdict is Packed ==> shelf_attempt(
            sizes,
            config,
        ).layout.rectangles.len() == sizes.len(),
{
    lemma_ascending_sorts(sizes);
    lemma_run_keeps_sizes(ascending(sizes), bounds_for(sizes, config), config);
}

/// Dimension fidelity: the rectangles of an attempt, placed or left in an error, are
/// the sizes in ascending order: the rectangle at index `k` has the width and the
/// height of the size at index `k` of that order, which holds the sizes of the input,
/// each as often as the input does.
pub proof fn lemma_dimensions_kept(sizes: Seq<Size>, config: RectanglePackerConfig, k: int)
    requires
        0 <= k < shelf_attempt(sizes, config).layout.rectangles.len(),
    ensures
        k < ascending(sizes).len(),
        shelf_attempt(sizes, config).layout.rectangles[k].width == ascending(sizes)[k].width,
        shelf_attempt(sizes, config).layout.rectangles[k].height == ascending(sizes)[k].height,
        ascending(sizes).to_multiset() == sizes.to_multiset(),
{
    lemma_ascending_sorts(sizes);
    lemma_run_keeps_sizes(ascending(sizes), bounds_for(sizes, config), config);
}

/// The container of a layout: the rectangle from the origin with the layout's width
/// and height.
pub open spec fn container_of(layout: Layout) -> Region {
    Region { x: 0, y: 0, width: layout.width, height: layout.height }
}

/// Where shelf packing succeeds, every rectangle lies right of and below the origin
/// and ends above the bottom of the container.
pub proof fn lemma_packed_above_bottom(sizes: Seq<Size>, config: RectanglePackerConfig, k: int)
    requires
        shelf_attempt(sizes, config).verdict is Packed,
        0 <= k < shelf_attempt(sizes, config).layout.rectangles.len(),
    ensures
        0 <= shelf_attempt(sizes, config).layout.rectangles[k].x,
        0 <= shelf_attempt(sizes, config).layout.rectangles[k].y,
        shelf_attempt(sizes, config).layout.rectangles[k].y + shelf_attempt(
            sizes,
            config,
        ).layout.rectangles[k].height <= shelf_attempt(sizes, config).layout.height,
{
    lemma_ascending_sorts(sizes);
    lemma_run_not_negative(ascending(sizes), bounds_for(sizes, config), config);
    lemma_run_rows(ascending(sizes), bounds_for(sizes, config), config);
}

/// Containment: where shelf packing succeeds, the container contains every rectangle
/// that ends left of the container's right edge. A rectangle is recorded at the place
/// of the cursor after it, and the container is as wide as the cursor of the last row
/// stands, so a rectangle may end right of that edge; no rectangle ends below the
/// container.
pub proof fn lemma_packed_within_container(
    sizes: Seq<Size>,
    config: RectanglePackerConfig,
    k: int,
)
    requires
        shelf_attempt(sizes, config).verdict is Packed,
        0 <= k < shelf_attempt(sizes, config).layout.rectangles.len(),
        shelf_attempt(sizes, config).layout.rectangles[k].x + shelf_attempt(
            sizes,
            config,
        ).layout.rectangles[k].width <= shelf_attempt(sizes, config).layout.width,
    ensures
        container_of(shelf_attempt(sizes, config).layout).contains(
            shelf_attempt(sizes, config).layout.rectangles[k],
        ),
{
    lemma_packed_above_bottom(sizes, config, k);
}

/// A pass under a maximum size that admits every size keeps within it: every
/// rectangle is recorded no further right than the right border plus its padding, and
/// ends with its padding above the bottom border. The cursor keeps within the same
/// limits while the pass goes on, and has come down by no more than twice the maximum
/// height where the pass has stopped.
pub proof fn lemma_run_within_maximum(
    sizes: Seq<Size>,
    max_size: Size,
    config: RectanglePackerConfig,
)
    requires
        config.max_size == Some(max_size),
        sizes_fit(sizes, config),
    ensures
        ({
            let bounds = Bounds { width: max_size.width as int, height: Some(max_size.height as int) };
            let shelf = run(sizes, bounds, config);
            let right = max_size.width - config.border_padding + config.rectangle_padding;
            let bottom = max_size.height - config.border_padding - config.rectangle_padding;
            &&& forall|k: int|
                0 <= k < shelf.placed.len() ==> {
                    &&& (#[trigger] shelf.placed[k]).x <= right
                    &&& shelf.placed[k].y + shelf.placed[k].height <= bottom
                }
            &&& sizes.len() > 0 ==> 0 <= shelf.x <= right
            &&& sizes.len() > 0 && !shelf.full ==> 0 <= shelf.y && shelf.y + shelf.row_height
                <= bottom
            &&& shelf.full ==> 0 <= shelf.y <= 2 * max_size.height
        }),
    decreases sizes.len(),
{
    if sizes.len() > 0 {
        let earlier = sizes.drop_last();
        assert(sizes_fit(earlier, config)) by {
            assert forall|i: int| 0 <= i < earlier.len() implies config.admits(
                #[trigger] earlier[i],
            ) by {}
        }
        lemma_run_within_maximum(earlier, max_size, config);
        let bounds = Bounds { width: max_size.width as int, height: Some(max_size.height as int) };
        lemma_run_not_negative(earlier, bounds, config);
    }
}

/// Under a maximum size, no rectangle of an attempt at shelf packing passes the
/// maximum: set back by its padding, its place is left of the right border, and with
/// its padding it ends above the bottom border.
pub proof fn lemma_placed_within_maximum(sizes: Seq<Size>, config: RectanglePackerConfig, k: int)
    requires
        config.max_size is Some,
        0 <= k < shelf_attempt(sizes, config).layout.rectangles.len(),
    ensures
        shelf_attempt(sizes, config).layout.rectangles[k].x - config.rectangle_padding
            <= config.max_size.unwrap().width - config.border_padding,
        shelf_attempt(sizes, config).layout.rectangles[k].y + shelf_attempt(
            sizes,
            config,
        ).layout.rectangles[k].height + config.rectangle_padding
            <= config.max_size.unwrap().height - config.border_padding,
{
    let sorted = ascending(sizes);
    lemma_ascending_sorts(sizes);
    lemma_fit_of_permutation(sizes, sorted, config);
    lemma_run_within_maximum(sorted, config.max_size.unwrap(), config);
}

/// Under a maximum size of at most half the greatest machine word each way, whatever
/// shelf packing makes of its input fits in machine words, provided that the border
/// and one padding together do.
pub proof fn lemma_bounded_is_representable(sizes: Seq<Size>, config: RectanglePackerConfig)
    requires
        config.max_size is Some,
        2 * config.max_size.unwrap().width <= usize::MAX,
        2 * config.max_size.unwrap().height <= usize::MAX,
        config.border_padding + config.rectangle_padding <= usize::MAX,
    ensures
        shelf_attempt(sizes, config).layout.representable(),
{
    if sizes_fit(sizes, config) {
        let max_size = config.max_size.unwrap();
        let sorted = ascending(sizes);
        lemma_ascending_sorts(sizes);
        lemma_fit_of_permutation(sizes, sorted, config);
        lemma_run_within_maximum(sorted, max_size, config);
        lemma_run_not_negative(sorted, bounds_for(sizes, config), config);
        lemma_run_keeps_sizes(sorted, bounds_for(sizes, config), config);
    }
}

/// No size is wider than the widest.
pub proof fn lemma_widest_is_widest(sizes: Seq<Size>, i: int)
    requires
        0 <= i < sizes.len(),
    ensures
        sizes[i].width <= widest(sizes),
    decreases sizes.len(),
{
    if i < sizes.len() - 1 {
        lemma_widest_is_widest(sizes.drop_last(), i);
    }
}

/// The row chosen where there is no maximum size has room for each rectangle alone,
/// with its padding and inside the border: held against that row, the check of the
/// sizes would pass as it does without a maximum.
pub proof fn lemma_row_holds_each(sizes: Seq<Size>, config: RectanglePackerConfig, i: int)
    requires
        0 <= i < sizes.len(),
    ensures
        sizes[i].width + config.reserved() <= row_width(sizes, config),
{
    lemma_widest_is_widest(sizes, i);
}

/// Sequences that hold the same sizes, in whatever order, have the same total width
/// and the same greatest width.
pub proof fn lemma_widths_of_permutation(a: Seq<Size>, b: Seq<Size>)
    requires
        a.to_multiset() == b.to_multiset(),
    ensures
        a.len() == b.len(),
        total_width(a) == total_width(b),
        widest(a) == widest(b),
{
    a.to_multiset_ensures();
    b.to_multiset_ensures();
    assert(commutative_foldl(add_width())) by {
        assert forall|x: Size, y: Size, v: int| #[trigger]
            add_width()(add_width()(v, x), y) == add_width()(add_width()(v, y), x) by {}
    }
    assert(commutative_foldl(wider())) by {
        assert forall|x: Size, y: Size, v: int| #[trigger]
            wider()(wider()(v, x), y) == wider()(wider()(v, y), x) by {}
    }
    lemma_fold_left_permutation(a, b, add_width(), 0int);
    lemma_fold_left_permutation(a, b, wider(), 0int);
}

/// Where every size of `a` is admitted, so is every size of a sequence that holds the
/// same sizes.
proof fn lemma_fit_of_permutation(a: Seq<Size>, b: Seq<Size>, config: RectanglePackerConfig)
    requires
        a.to_multiset() == b.to_multiset(),
        sizes_fit(a, config),
    ensures
        sizes_fit(b, config),
{
    a.to_multiset_ensures();
    b.to_multiset_ensures();
    assert forall|i: int| 0 <= i < b.len() implies config.admits(#[trigger] b[i]) by {
        assert(a.to_multiset().count(b[i]) > 0);
        assert(a.contains(b[i]));
    }
}

/// Ordering determinism: shelf packing makes the same of any two inputs that hold the
/// same sizes, in whatever order: the same verdict, the same rectangles at the same
/// places in the same order, the same container.
pub proof fn lemma_order_of_input_is_immaterial(
    a: Seq<Size>,
    b: Seq<Size>,
    config: RectanglePackerConfig,
)
    requires
        a.to_multiset() == b.to_multiset(),
    ensures
        shelf_attempt(a, config) == shelf_attempt(b, config),
{
    if sizes_fit(a, config) {
        lemma_fit_of_permutation(a, b, config);
    }
    if sizes_fit(b, config) {
        lemma_fit_of_permutation(b, a, config);
    }
    lemma_ascending_of_permutation(a, b);
    lemma_widths_of_permutation(a, b);
}

/// Empty input: with no size to place, shelf packing succeeds with no rectangle, and
/// the container reaches as far as the cursor stands at the start: the border and one
/// padding from the origin, both ways.
pub proof fn lemma_nothing_to_pack(config: RectanglePackerConfig)
    ensures
        shelf_attempt(Seq::empty(), config) == (Attempt {
            verdict: Verdict::Packed,
            layout: Layout {
                rectangles: Seq::empty(),
                width: config.border_padding + config.rectangle_padding,
                height: config.border_padding + config.rectangle_padding,
            },
        }),
{
    lemma_ascending_sorts(Seq::<Size>::empty());
}

} // verus!
