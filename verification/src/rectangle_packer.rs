use crate::message::{too_large_message, too_large_text};
use crate::rectangle::{Rectangle, Region};
use crate::size::Size;
use vstd::prelude::*;

verus! {

/// Placed rectangles and the container that holds them, over the mathematical
/// integers: the model of a [`RectanglePackingResult`].
pub struct Layout {
    /// The rectangles in the order in which they were placed.
    pub rectangles: Seq<Region>,
    /// The width of the container.
    pub width: int,
    /// The height of the container.
    pub height: int,
}

impl Layout {
    /// No rectangle, in a container without extent.
    pub open spec fn empty() -> Layout {
        Layout { rectangles: Seq::empty(), width: 0, height: 0 }
    }

    /// Every coordinate and every extent of the layout fits in a machine word.
    pub open spec fn representable(self) -> bool {
        &&& 0 <= self.width <= usize::MAX
        &&& 0 <= self.height <= usize::MAX
        &&& forall|i: int|
            0 <= i < self.rectangles.len() ==> {
                &&& 0 <= (#[trigger] self.rectangles[i]).x <= usize::MAX
                &&& 0 <= self.rectangles[i].y <= usize::MAX
                &&& 0 <= self.rectangles[i].width <= usize::MAX
                &&& 0 <= self.rectangles[i].height <= usize::MAX
            }
    }
}

/// The sum of the areas of `rectangles`.
pub open spec fn total_area(rectangles: Seq<Region>) -> int
    decreases rectangles.len(),
{
    if rectangles.len() == 0 {
        0
    } else {
        total_area(rectangles.drop_last()) + rectangles.last().width * rectangles.last().height
    }
}

/// The areas of rectangles of no negative extent add up: the first `n` rectangles cover
/// no more than all of them, and not less than nothing.
pub proof fn lemma_total_area_grows(rectangles: Seq<Region>, n: int)
    requires
        0 <= n <= rectangles.len(),
        forall|i: int|
            0 <= i < rectangles.len() ==> (#[trigger] rectangles[i]).width >= 0
                && rectangles[i].height >= 0,
    ensures
        0 <= total_area(rectangles.take(n)) <= total_area(rectangles),
    decreases rectangles.len(),
{
    if n == rectangles.len() {
        assert(rectangles.take(n) =~= rectangles);
        if n > 0 {
            lemma_total_area_grows(rectangles.drop_last(), n - 1);
            assert(rectangles.last().width * rectangles.last().height >= 0) by (nonlinear_arith)
                requires
                    rectangles.last().width >= 0,
                    rectangles.last().height >= 0,
            ;
        }
    } else {
        assert(rectangles.drop_last().take(n) =~= rectangles.take(n));
        lemma_total_area_grows(rectangles.drop_last(), n);
        assert(rectangles.last().width * rectangles.last().height >= 0) by (nonlinear_arith)
            requires
                rectangles.last().width >= 0,
                rectangles.last().height >= 0,
        ;
    }
}

/// The ways in which an attempt to pack ends.
pub enum Verdict {
    /// Every rectangle was placed.
    Packed,
    /// Some rectangle with its padding is larger than the container, so that no
    /// arrangement could hold it. Nothing was placed.
    Infeasible,
    /// The container was full before every rectangle was placed.
    Overflow,
}

/// What a strategy makes of its input: how the attempt ends, and the layout that
/// it has reached by then.
pub struct Attempt {
    pub verdict: Verdict,
    pub layout: Layout,
}

/// The models of rectangles, one by one.
pub open spec fn regions(rectangles: Seq<Rectangle>) -> Seq<Region> {
    Seq::new(rectangles.len(), |i: int| rectangles[i]@)
}

/// The widths and heights of rectangles, one by one.
pub open spec fn dimensions(rectangles: Seq<Rectangle>) -> Seq<Size> {
    Seq::new(
        rectangles.len(),
        |i: int| Size { width: rectangles[i].width, height: rectangles[i].height },
    )
}

/// The rectangles that were packed, and the container that they take.
#[derive(Debug)]
pub struct RectanglePackingResult {
    /// The list of rectangles that were packed.
    pub rectangles: Vec<Rectangle>,
    /// The size of the packed rectangle.
    pub size: Size,
}

impl View for RectanglePackingResult {
    type V = Layout;

    open spec fn view(&self) -> Layout {
        Layout {
            rectangles: regions(self.rectangles@),
            width: self.size.width as int,
            height: self.size.height as int,
        }
    }
}

impl RectanglePackingResult {
    /// Returns the sum of the areas of the rectangles, or `None` where the sum does not
    /// fit in a machine word. Divided by the area of the container, it is the
    /// share of the container that the rectangles cover.
    pub fn covered_area(&self) -> (area: Option<usize>)
        ensures
            area == (if total_area(self@.rectangles) <= usize::MAX {
                Some(total_area(self@.rectangles) as usize)
            } else {
                None
            }),
    {
        let ghost all = self@.rectangles;
        let mut sum: usize = 0;
        let mut i: usize = 0;
        while i < self.rectangles.len()
            invariant
                i <= self.rectangles.len(),
                all == self@.rectangles,
                sum == total_area(all.take(i as int)),
            decreases self.rectangles.len() - i,
        {
            let width = self.rectangles[i].width as u128;
            let height = self.rectangles[i].height as u128;
            proof {
                assert(all.take(i + 1).drop_last() =~= all.take(i as int));
                lemma_total_area_grows(all, i + 1);
                assert(width * height <= usize::MAX * usize::MAX) by (nonlinear_arith)
                    requires
                        0 <= width <= usize::MAX,
                        0 <= height <= usize::MAX,
                ;
                assert(usize::MAX * usize::MAX <= 0xffff_ffff_ffff_ffff_ffff_ffff_ffff_0000)
                    by (nonlinear_arith)
                    requires
                        usize::MAX <= 0xffff_ffff_ffff_ffff,
                ;
            }
            let larger: u128 = sum as u128 + width * height;
            if larger > usize::MAX as u128 {
                return None;
            }
            sum = larger as usize;
            i += 1;
        }
        proof {
            assert(all.take(i as int) =~= all);
        }
        Some(sum)
    }
}

/// Why packing failed, and how far it got.
#[derive(Debug)]
pub struct RectanglePackingError {
    /// The error message.
    pub message: String,
    /// The result of the packing operation until the error occurred.
    pub result: RectanglePackingResult,
}

impl RectanglePackingError {
    /// Returns the error message.
    pub fn to_string(&self) -> (text: String)
        ensures
            text@ == self.message@,
    {
        self.message.clone()
    }
}

/// The limits within which rectangles are packed.
pub struct RectanglePackerConfig {
    /// The maximum size of the container rectangle.
    ///
    /// If `None`, the container grows to fit all the rectangles.
    /// If `Some`, packing fails where the rectangles do not fit in a container of
    /// that size.
    pub max_size: Option<Size>,
    /// The amount of padding to add around each rectangle.
    pub rectangle_padding: usize,
    /// The amount of padding to add around the container rectangle.
    pub border_padding: usize,
}

impl RectanglePackerConfig {
    /// What padding takes from each dimension of the container: the border and a
    /// rectangle's own padding, on both sides.
    pub open spec fn reserved(self) -> int {
        2 * (self.border_padding + self.rectangle_padding)
    }

    /// A rectangle of this size, with the padding around it, is no larger than the
    /// container. Without a maximum size every rectangle is admitted.
    pub open spec fn admits(self, size: Size) -> bool {
        match self.max_size {
            Some(max_size) => {
                &&& size.width + self.reserved() <= max_size.width
                &&& size.height + self.reserved() <= max_size.height
            },
            None => true,
        }
    }

    /// The room that `max_size` leaves inside the padding; none in a dimension that
    /// the padding alone fills.
    pub open spec fn interior(self, max_size: Size) -> Size {
        Size {
            width: if max_size.width >= self.reserved() {
                (max_size.width - self.reserved()) as usize
            } else {
                0
            },
            height: if max_size.height >= self.reserved() {
                (max_size.height - self.reserved()) as usize
            } else {
                0
            },
        }
    }
}

impl Default for RectanglePackerConfig {
    /// No maximum size and no padding.
    fn default() -> (config: RectanglePackerConfig)
        ensures
            config.max_size is None,
            config.rectangle_padding == 0,
            config.border_padding == 0,
    {
        RectanglePackerConfig { max_size: None, rectangle_padding: 0, border_padding: 0 }
    }
}

/// Every size is admitted by `config`.
pub open spec fn sizes_fit(sizes: Seq<Size>, config: RectanglePackerConfig) -> bool {
    forall|i: int| 0 <= i < sizes.len() ==> config.admits(#[trigger] sizes[i])
}

/// `sizes[i]` is the first size that `config` does not admit.
pub open spec fn first_rejected(sizes: Seq<Size>, config: RectanglePackerConfig, i: int) -> bool {
    &&& 0 <= i < sizes.len()
    &&& !config.admits(sizes[i])
    &&& forall|j: int| 0 <= j < i ==> config.admits(#[trigger] sizes[j])
}

/// The outcome of a call says what `attempt` says: success where everything was
/// packed, failure otherwise, and either way the layout that was reached.
pub open spec fn reports(
    outcome: Result<RectanglePackingResult, RectanglePackingError>,
    attempt: Attempt,
) -> bool {
    match outcome {
        Ok(result) => attempt.verdict is Packed && result@ == attempt.layout,
        Err(error) => !(attempt.verdict is Packed) && error.result@ == attempt.layout,
    }
}

/// A strategy for packing rectangles of given sizes into a single container rectangle.
pub trait RectanglePacker {
    /// What the strategy makes of `sizes` under `config`, were numbers unbounded.
    spec fn attempt(sizes: Seq<Size>, config: RectanglePackerConfig) -> Attempt;

    /// Packs rectangles of the given sizes into a single container rectangle.
    ///
    /// Returns the placed rectangles and the size of the container, or an error that
    /// holds what was placed until packing failed. On success there is one rectangle
    /// for each size, of that size. The layout has to fit in machine words.
    fn pack(sizes: &Vec<Size>, config: &RectanglePackerConfig) -> (outcome: Result<
        RectanglePackingResult,
        RectanglePackingError,
    >)
        requires
            Self::attempt(sizes@, *config).layout.representable(),
        ensures
            reports(outcome, Self::attempt(sizes@, *config)),
            outcome matches Ok(result) ==> {
                &&& result.rectangles@.len() == sizes@.len()
                &&& dimensions(result.rectangles@).to_multiset() == sizes@.to_multiset()
            },
    ;

    /// Checks that each size alone, with its padding, fits in the maximum size.
    ///
    /// Fails on the first size that does not, with an empty result. Without a maximum
    /// size the check always succeeds.
    fn check_sizes(sizes: &Vec<Size>, config: &RectanglePackerConfig) -> (checked: Result<
        (),
        RectanglePackingError,
    >)
        ensures
            checked is Ok <==> sizes_fit(sizes@, *config),
            checked matches Err(error) ==> {
                &&& error.result@ == Layout::empty()
                &&& exists|i: int|
                    {
                        &&& #[trigger] first_rejected(sizes@, *config, i)
                        &&& error.message@ == too_large_text(
                            sizes@[i],
                            config.interior(config.max_size.unwrap()),
                        )
                    }
            },
    {
        let max_size = match config.max_size {
            Some(max_size) => max_size,
            None => { return Ok(()); },
        };
        let reserved: u128 = 2 * (config.border_padding as u128 + config.rectangle_padding as u128);
        let mut i: usize = 0;
        while i < sizes.len()
            invariant
                i <= sizes.len(),
                config.max_size == Some(max_size),
                reserved == config.reserved(),
                forall|j: int| 0 <= j < i ==> config.admits(#[trigger] sizes@[j]),
            decreases sizes.len() - i,
        {
            let size = sizes[i];
            if size.width as u128 + reserved > max_size.width as u128 || size.height as u128
                + reserved > max_size.height as u128 {
                let limit = Size {
                    width: if max_size.width as u128 >= reserved {
                        (max_size.width as u128 - reserved) as usize
                    } else {
                        0
                    },
                    height: if max_size.height as u128 >= reserved {
                        (max_size.height as u128 - reserved) as usize
                    } else {
                        0
                    },
                };
                let result = RectanglePackingResult { rectangles: Vec::new(), size: Size::new(0, 0) };
                proof {
                    assert(first_rejected(sizes@, *config, i as int));
                    assert(result@.rectangles =~= Layout::empty().rectangles);
                }
                return Err(RectanglePackingError { message: too_large_message(&size, &limit), result });
            }
            i += 1;
        }
        Ok(())
    }
}

} // verus!
