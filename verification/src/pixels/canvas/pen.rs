//! A pen that walks over a canvas and paints the cells it visits, clamped at
//! the borders, in the style of turtle graphics.

use vstd::prelude::*;

use super::table::PixelTable;
use super::PixelCanvasMutInterface;
use crate::pixels::color::PixelColor;
use crate::pixels::position::{Direction, IntoPixelStrictPosition, PixelPosition, PixelStrictPosition};
use crate::pixels::{ColorValue, PixelMutInterface};

verus! {

/// State a pen can be in: attached to a canvas position or roaming free.
pub trait CanvasAttachment: Sized {

}

/// The pen stands on a position of an `H` by `W` canvas.
pub struct CanvasAttachedMarker<const H: usize, const W: usize> {
    pub current_pos: PixelStrictPosition<H, W>,
}

impl<const H: usize, const W: usize> CanvasAttachedMarker<H, W> {
    /// An attachment at the given position.
    pub fn new<T: IntoPixelStrictPosition<H, W>>(current_pos: T) -> (r: Self)
        requires
            current_pos.into_wf(),
        ensures
            r.current_pos.wf(),
            r.current_pos.raw.row as int == current_pos.into_row(),
            r.current_pos.raw.column as int == current_pos.into_column(),
    {
        CanvasAttachedMarker { current_pos: current_pos.into_pixel_strict_position() }
    }
}

impl<const H: usize, const W: usize> CanvasAttachment for CanvasAttachedMarker<H, W> {

}

/// The pen is not bound to any canvas.
pub struct CanvasUnattachedMarker;

impl CanvasAttachment for CanvasUnattachedMarker {

}

/// One step of a pen walk, used to describe a branch of moves.
#[derive(Clone, Copy, PartialEq, Eq, Structural, Debug)]
pub enum PenMove {
    /// Up by the given amount.
    Up(usize),
    /// Down by the given amount.
    Down(usize),
    /// Left by the given amount.
    Left(usize),
    /// Right by the given amount.
    Right(usize),
    /// Up and right by the given amount.
    UpRight(usize),
    /// Down and right by the given amount.
    DownRight(usize),
    /// Down and left by the given amount.
    DownLeft(usize),
    /// Up and left by the given amount.
    UpLeft(usize),
}

/// A pen: a color, whether it currently paints, and where it stands.
pub struct Pen<M: CanvasAttachment = CanvasUnattachedMarker> {
    pub color: PixelColor,
    pub drawing: bool,
    pub attachment: M,
}

/// A pen not yet attached to a canvas.
pub type PixelPen = Pen<CanvasUnattachedMarker>;

impl<M: CanvasAttachment> Pen<M> {
    /// Lifts the pen: further movement stops painting.
    pub fn stop(&mut self)
        ensures
            final(self).color == old(self).color,
            final(self).attachment == old(self).attachment,
            !final(self).drawing,
    {
        self.drawing = false;
    }
}

impl Pen<CanvasUnattachedMarker> {
    /// A fresh pen of the given color, not yet drawing.
    pub fn new(color: PixelColor) -> (r: Self)
        ensures
            r.color == color,
            !r.drawing,
    {
        Pen { color, drawing: false, attachment: CanvasUnattachedMarker }
    }

    /// Attaches the pen to a canvas position.
    pub fn attach<const H: usize, const W: usize, T: IntoPixelStrictPosition<H, W>>(
        self,
        start_pos: T,
    ) -> (r: Pen<CanvasAttachedMarker<H, W>>)
        requires
            start_pos.into_wf(),
        ensures
            r.color == self.color,
            !r.drawing,
            r.attachment.current_pos.wf(),
            r.attachment.current_pos.raw.row as int == start_pos.into_row(),
            r.attachment.current_pos.raw.column as int == start_pos.into_column(),
    {
        Pen {
            color: self.color,
            drawing: false,
            attachment: CanvasAttachedMarker::new(start_pos),
        }
    }
}

impl<const H: usize, const W: usize> Pen<CanvasAttachedMarker<H, W>> {
    /// The pen stands on a valid position.
    pub open spec fn wf(&self) -> bool {
        self.attachment.current_pos.wf()
    }

    /// Detaches the pen from its canvas position.
    pub fn detach(self) -> (r: Pen<CanvasUnattachedMarker>)
        ensures
            r.color == self.color,
            r.drawing == self.drawing,
    {
        Pen { color: self.color, drawing: self.drawing, attachment: CanvasUnattachedMarker }
    }

    /// Paints the current cell when the pen is down; every other cell keeps
    /// its pixel.
    fn draw<P: PixelMutInterface, C: PixelCanvasMutInterface<H, W, P>>(&self, canvas: &mut C)
        requires
            self.wf(),
            old(canvas).spec_table().wf(),
        ensures
            final(canvas).spec_table().wf(),
            final(canvas).spec_table().defv() == old(canvas).spec_table().defv(),
            forall|i: int, j: int|
                !(i == self.attachment.current_pos.raw.row as int && j
                    == self.attachment.current_pos.raw.column as int) ==> final(canvas).spec_table().cell(i, j) == old(canvas).spec_table().cell(i, j),
            final(canvas).spec_table().cell(
                self.attachment.current_pos.raw.row as int,
                self.attachment.current_pos.raw.column as int,
            ) == if self.drawing {
                pen_paint(
                    old(canvas).spec_table().cell(
                        self.attachment.current_pos.raw.row as int,
                        self.attachment.current_pos.raw.column as int,
                    ),
                    self.color,
                )
            } else {
                old(canvas).spec_table().cell(
                    self.attachment.current_pos.raw.row as int,
                    self.attachment.current_pos.raw.column as int,
                )
            },
    {
        if self.drawing {
            match P::ColorType::from_maybe(Some(self.color)) {
                Some(c) => {
                    let t = canvas.table_mut();
                    let _ = t.update_color_at(self.attachment.current_pos, c);
                },
                None => {},
            }
        }
    }

    /// Starts painting from the current position: the cell under the pen is
    /// painted and every other cell keeps its pixel.
    pub fn start<P: PixelMutInterface, C: PixelCanvasMutInterface<H, W, P>>(
        &mut self,
        canvas: &mut C,
    )
        requires
            old(self).wf(),
            old(canvas).spec_table().wf(),
        ensures
            final(self).wf(),
            final(self).drawing,
            final(self).color == old(self).color,
            final(self).attachment == old(self).attachment,
            final(canvas).spec_table().wf(),
            final(canvas).spec_table().defv() == old(canvas).spec_table().defv(),
            forall|i: int, j: int|
                !(i == old(self).attachment.current_pos.raw.row as int && j == old(
                    self,
                ).attachment.current_pos.raw.column as int) ==> final(canvas).spec_table().cell(
                    i,
                    j,
                ) == old(canvas).spec_table().cell(i, j),
            final(canvas).spec_table().cell(
                old(self).attachment.current_pos.raw.row as int,
                old(self).attachment.current_pos.raw.column as int,
            ) == pen_paint(
                old(canvas).spec_table().cell(
                    old(self).attachment.current_pos.raw.row as int,
                    old(self).attachment.current_pos.raw.column as int,
                ),
                old(self).color,
            ),
    {
        self.drawing = true;
        self.draw(canvas);
    }

    /// One clamped step towards `dir`, painting the cell reached.
    fn go_direction_once<P: PixelMutInterface, C: PixelCanvasMutInterface<H, W, P>>(
        &mut self,
        dir: Direction,
        canvas: &mut C,
    )
        requires
            old(self).wf(),
            old(canvas).spec_table().wf(),
        ensures
            final(self).wf(),
            final(self).drawing == old(self).drawing,
            final(self).color == old(self).color,
            final(self).attachment.current_pos == pen_step(
                old(self).attachment.current_pos,
                dir,
            ),
            final(canvas).spec_table().wf(),
            final(canvas).spec_table().defv() == old(canvas).spec_table().defv(),
            forall|i: int, j: int|
                !(i == pen_step(old(self).attachment.current_pos, dir).raw.row as int && j
                    == pen_step(old(self).attachment.current_pos, dir).raw.column as int) ==> final(canvas).spec_table().cell(i, j) == old(canvas).spec_table().cell(i, j),
            final(canvas).spec_table().cell(
                pen_step(old(self).attachment.current_pos, dir).raw.row as int,
                pen_step(old(self).attachment.current_pos, dir).raw.column as int,
            ) == if old(self).drawing {
                pen_paint(
                    old(canvas).spec_table().cell(
                        pen_step(old(self).attachment.current_pos, dir).raw.row as int,
                        pen_step(old(self).attachment.current_pos, dir).raw.column as int,
                    ),
                    old(self).color,
                )
            } else {
                old(canvas).spec_table().cell(
                    pen_step(old(self).attachment.current_pos, dir).raw.row as int,
                    pen_step(old(self).attachment.current_pos, dir).raw.column as int,
                )
            },
    {
        self.attachment.current_pos = self.attachment.current_pos.bounding_direction(dir, 1);
        self.draw(canvas);
    }

    /// `how_many` clamped steps towards `dir`, painting each cell reached.
    pub fn go_direction<P: PixelMutInterface, C: PixelCanvasMutInterface<H, W, P>>(
        &mut self,
        dir: Direction,
        how_many: usize,
        canvas: &mut C,
    )
        requires
            old(self).wf(),
            old(canvas).spec_table().wf(),
        ensures
            final(self).wf(),
            final(self).drawing == old(self).drawing,
            final(self).color == old(self).color,
            final(self).attachment.current_pos == pen_walk(
                old(self).attachment.current_pos,
                dir,
                how_many as nat,
            ),
            final(canvas).spec_table().wf(),
            final(canvas).spec_table().defv() == old(canvas).spec_table().defv(),
            pen_trail::<H, W, P>(
                old(canvas).spec_table(),
                final(canvas).spec_table(),
                old(self).attachment.current_pos,
                dir,
                how_many as nat,
                old(self).drawing,
                old(self).color,
            ),
    {
        let mut step: usize = 0;
        while step < how_many
            invariant
                step <= how_many,
                self.wf(),
                self.drawing == old(self).drawing,
                self.color == old(self).color,
                self.attachment.current_pos == pen_walk(
                    old(self).attachment.current_pos,
                    dir,
                    step as nat,
                ),
                canvas.spec_table().wf(),
                canvas.spec_table().defv() == old(canvas).spec_table().defv(),
                pen_trail::<H, W, P>(
                    old(canvas).spec_table(),
                    canvas.spec_table(),
                    old(self).attachment.current_pos,
                    dir,
                    step as nat,
                    old(self).drawing,
                    old(self).color,
                ),
            decreases how_many - step,
        {
            let ghost before_step = canvas.spec_table();
            let ghost walked = step as nat;
            self.go_direction_once(dir, canvas);
            proof {
                let start = old(self).attachment.current_pos;
                let stepped = pen_step(pen_walk(start, dir, walked), dir);
                assert(stepped == pen_walk(start, dir, walked + 1));
                assert forall|i: int, j: int|
                    canvas.spec_table().cell(i, j) == old(canvas).spec_table().cell(i, j) || (old(self).drawing && canvas.spec_table().cell(i, j) == pen_paint(
                        old(canvas).spec_table().cell(i, j),
                        old(self).color,
                    ) && exists|k: int|
                        1 <= k <= walked + 1 && (#[trigger] pen_walk(start, dir, k as nat)).raw.row
                            as int == i && pen_walk(start, dir, k as nat).raw.column as int
                            == j) by {
                    if i == stepped.raw.row as int && j == stepped.raw.column as int {
                        if old(self).drawing {
                            if before_step.cell(i, j) == old(canvas).spec_table().cell(i, j) {
                                assert(pen_walk(start, dir, walked + 1).raw.row as int == i
                                    && pen_walk(start, dir, walked + 1).raw.column as int == j);
                            } else {
                                match P::ColorType::spec_from_maybe(Some(old(self).color)) {
                                    Some(cc) => {
                                        old(canvas).spec_table().cell(i, j).pixel_laws(cc);
                                    },
                                    None => {},
                                }
                                let k0 = choose|k: int|
                                    1 <= k <= walked && (#[trigger] pen_walk(
                                        start,
                                        dir,
                                        k as nat,
                                    )).raw.row as int == i && pen_walk(start, dir, k as nat).raw.column
                                        as int == j;
                                assert(pen_walk(start, dir, k0 as nat).raw.row as int == i);
                            }
                        }
                    } else {
                        assert(canvas.spec_table().cell(i, j) == before_step.cell(i, j));
                    }
                }
            }
            step += 1;
        }
    }

    /// Up by `how_many`, painting along the way.
    pub fn up<P: PixelMutInterface, C: PixelCanvasMutInterface<H, W, P>>(
        &mut self,
        how_many: usize,
        canvas: &mut C,
    )
        requires
            old(self).wf(),
            old(canvas).spec_table().wf(),
        ensures
            final(self).wf(),
            final(canvas).spec_table().wf(),
            final(canvas).spec_table().defv() == old(canvas).spec_table().defv(),
            final(self).drawing == old(self).drawing,
            final(self).color == old(self).color,
            final(self).attachment.current_pos == pen_walk(
                old(self).attachment.current_pos,
                Direction::Up,
                how_many as nat,
            ),
            pen_trail::<H, W, P>(
                old(canvas).spec_table(),
                final(canvas).spec_table(),
                old(self).attachment.current_pos,
                Direction::Up,
                how_many as nat,
                old(self).drawing,
                old(self).color,
            ),
    {
        self.go_direction(Direction::Up, how_many, canvas)
    }

    /// Down by `how_many`, painting along the way.
    pub fn down<P: PixelMutInterface, C: PixelCanvasMutInterface<H, W, P>>(
        &mut self,
        how_many: usize,
        canvas: &mut C,
    )
        requires
            old(self).wf(),
            old(canvas).spec_table().wf(),
        ensures
            final(self).wf(),
            final(canvas).spec_table().wf(),
            final(canvas).spec_table().defv() == old(canvas).spec_table().defv(),
            final(self).drawing == old(self).drawing,
            final(self).color == old(self).color,
            final(self).attachment.current_pos == pen_walk(
                old(self).attachment.current_pos,
                Direction::Down,
                how_many as nat,
            ),
            pen_trail::<H, W, P>(
                old(canvas).spec_table(),
                final(canvas).spec_table(),
                old(self).attachment.current_pos,
                Direction::Down,
                how_many as nat,
                old(self).drawing,
                old(self).color,
            ),
    {
        self.go_direction(Direction::Down, how_many, canvas)
    }

    /// Left by `how_many`, painting along the way.
    pub fn left<P: PixelMutInterface, C: PixelCanvasMutInterface<H, W, P>>(
        &mut self,
        how_many: usize,
        canvas: &mut C,
    )
        requires
            old(self).wf(),
            old(canvas).spec_table().wf(),
        ensures
            final(self).wf(),
            final(canvas).spec_table().wf(),
            final(canvas).spec_table().defv() == old(canvas).spec_table().defv(),
            final(self).drawing == old(self).drawing,
            final(self).color == old(self).color,
            final(self).attachment.current_pos == pen_walk(
                old(self).attachment.current_pos,
                Direction::Left,
                how_many as nat,
            ),
            pen_trail::<H, W, P>(
                old(canvas).spec_table(),
                final(canvas).spec_table(),
                old(self).attachment.current_pos,
                Direction::Left,
                how_many as nat,
                old(self).drawing,
                old(self).color,
            ),
    {
        self.go_direction(Direction::Left, how_many, canvas)
    }

    /// Right by `how_many`, painting along the way.
    pub fn right<P: PixelMutInterface, C: PixelCanvasMutInterface<H, W, P>>(
        &mut self,
        how_many: usize,
        canvas: &mut C,
    )
        requires
            old(self).wf(),
            old(canvas).spec_table().wf(),
        ensures
            final(self).wf(),
            final(canvas).spec_table().wf(),
            final(canvas).spec_table().defv() == old(canvas).spec_table().defv(),
            final(self).drawing == old(self).drawing,
            final(self).color == old(self).color,
            final(self).attachment.current_pos == pen_walk(
                old(self).attachment.current_pos,
                Direction::Right,
                how_many as nat,
            ),
            pen_trail::<H, W, P>(
                old(canvas).spec_table(),
                final(canvas).spec_table(),
                old(self).attachment.current_pos,
                Direction::Right,
                how_many as nat,
                old(self).drawing,
                old(self).color,
            ),
    {
        self.go_direction(Direction::Right, how_many, canvas)
    }

    /// Up and right by `how_many`, painting along the way.
    pub fn up_right<P: PixelMutInterface, C: PixelCanvasMutInterface<H, W, P>>(
        &mut self,
        how_many: usize,
        canvas: &mut C,
    )
        requires
            old(self).wf(),
            old(canvas).spec_table().wf(),
        ensures
            final(self).wf(),
            final(canvas).spec_table().wf(),
            final(canvas).spec_table().defv() == old(canvas).spec_table().defv(),
            final(self).drawing == old(self).drawing,
            final(self).color == old(self).color,
            final(self).attachment.current_pos == pen_walk(
                old(self).attachment.current_pos,
                Direction::UpRight,
                how_many as nat,
            ),
            pen_trail::<H, W, P>(
                old(canvas).spec_table(),
                final(canvas).spec_table(),
                old(self).attachment.current_pos,
                Direction::UpRight,
                how_many as nat,
                old(self).drawing,
                old(self).color,
            ),
    {
        self.go_direction(Direction::UpRight, how_many, canvas)
    }

    /// Down and right by `how_many`, painting along the way.
    pub fn down_right<P: PixelMutInterface, C: PixelCanvasMutInterface<H, W, P>>(
        &mut self,
        how_many: usize,
        canvas: &mut C,
    )
        requires
            old(self).wf(),
            old(canvas).spec_table().wf(),
        ensures
            final(self).wf(),
            final(canvas).spec_table().wf(),
            final(canvas).spec_table().defv() == old(canvas).spec_table().defv(),
            final(self).drawing == old(self).drawing,
            final(self).color == old(self).color,
            final(self).attachment.current_pos == pen_walk(
                old(self).attachment.current_pos,
                Direction::DownRight,
                how_many as nat,
            ),
            pen_trail::<H, W, P>(
                old(canvas).spec_table(),
                final(canvas).spec_table(),
                old(self).attachment.current_pos,
                Direction::DownRight,
                how_many as nat,
                old(self).drawing,
                old(self).color,
            ),
    {
        self.go_direction(Direction::DownRight, how_many, canvas)
    }

    /// Down and left by `how_many`, painting along the way.
    pub fn down_left<P: PixelMutInterface, C: PixelCanvasMutInterface<H, W, P>>(
        &mut self,
        how_many: usize,
        canvas: &mut C,
    )
        requires
            old(self).wf(),
            old(canvas).spec_table().wf(),
        ensures
            final(self).wf(),
            final(canvas).spec_table().wf(),
            final(canvas).spec_table().defv() == old(canvas).spec_table().defv(),
            final(self).drawing == old(self).drawing,
            final(self).color == old(self).color,
            final(self).attachment.current_pos == pen_walk(
                old(self).attachment.current_pos,
                Direction::DownLeft,
                how_many as nat,
            ),
            pen_trail::<H, W, P>(
                old(canvas).spec_table(),
                final(canvas).spec_table(),
                old(self).attachment.current_pos,
                Direction::DownLeft,
                how_many as nat,
                old(self).drawing,
                old(self).color,
            ),
    {
        self.go_direction(Direction::DownLeft, how_many, canvas)
    }

    /// Up and left by `how_many`, painting along the way.
    pub fn up_left<P: PixelMutInterface, C: PixelCanvasMutInterface<H, W, P>>(
        &mut self,
        how_many: usize,
        canvas: &mut C,
    )
        requires
            old(self).wf(),
            old(canvas).spec_table().wf(),
        ensures
            final(self).wf(),
            final(canvas).spec_table().wf(),
            final(canvas).spec_table().defv() == old(canvas).spec_table().defv(),
            final(self).drawing == old(self).drawing,
            final(self).color == old(self).color,
            final(self).attachment.current_pos == pen_walk(
                old(self).attachment.current_pos,
                Direction::UpLeft,
                how_many as nat,
            ),
            pen_trail::<H, W, P>(
                old(canvas).spec_table(),
                final(canvas).spec_table(),
                old(self).attachment.current_pos,
                Direction::UpLeft,
                how_many as nat,
                old(self).drawing,
                old(self).color,
            ),
    {
        self.go_direction(Direction::UpLeft, how_many, canvas)
    }

    /// Walks a branch of moves and then returns to the position it stood on
    /// before branching.
    pub fn branch<P: PixelMutInterface, C: PixelCanvasMutInterface<H, W, P>>(
        &mut self,
        moves: &Vec<PenMove>,
        canvas: &mut C,
    )
        requires
            old(self).wf(),
            old(canvas).spec_table().wf(),
        ensures
            final(self).wf(),
            final(self).attachment == old(self).attachment,
            final(self).drawing == old(self).drawing,
            final(self).color == old(self).color,
            final(canvas).spec_table().wf(),
            final(canvas).spec_table().defv() == old(canvas).spec_table().defv(),
            pen_kept_or_painted::<H, W, P>(
                old(canvas).spec_table(),
                final(canvas).spec_table(),
                old(self).color,
            ),
    {
        let pos_before_branching = self.attachment.current_pos;
        let n = moves.len();
        let mut k: usize = 0;
        while k < n
            invariant
                k <= n,
                n == moves@.len(),
                self.wf(),
                self.drawing == old(self).drawing,
                self.color == old(self).color,
                canvas.spec_table().wf(),
                canvas.spec_table().defv() == old(canvas).spec_table().defv(),
                pen_kept_or_painted::<H, W, P>(
                    old(canvas).spec_table(),
                    canvas.spec_table(),
                    old(self).color,
                ),
            decreases n - k,
        {
            let ghost before_step = canvas.spec_table();
            match moves[k] {
                PenMove::Up(a) => self.go_direction(Direction::Up, a, canvas),
                PenMove::Down(a) => self.go_direction(Direction::Down, a, canvas),
                PenMove::Left(a) => self.go_direction(Direction::Left, a, canvas),
                PenMove::Right(a) => self.go_direction(Direction::Right, a, canvas),
                PenMove::UpRight(a) => self.go_direction(Direction::UpRight, a, canvas),
                PenMove::DownRight(a) => self.go_direction(Direction::DownRight, a, canvas),
                PenMove::DownLeft(a) => self.go_direction(Direction::DownLeft, a, canvas),
                PenMove::UpLeft(a) => self.go_direction(Direction::UpLeft, a, canvas),
            }
            proof {
                lemma_pen_compose::<H, W, P>(
                    old(canvas).spec_table(),
                    before_step,
                    canvas.spec_table(),
                    old(self).color,
                );
            }
            k += 1;
        }
        self.attachment.current_pos = pos_before_branching;
    }
}

/// Where one clamped step towards `dir` lands.
pub open spec fn pen_step<const H: usize, const W: usize>(
    p: PixelStrictPosition<H, W>,
    dir: Direction,
) -> PixelStrictPosition<H, W> {
    let moved = p.raw.spec_direction(dir, 1);
    PixelStrictPosition {
        raw: PixelPosition {
            row: if moved.row < H {
                moved.row
            } else {
                (H - 1) as usize
            },
            column: if moved.column < W {
                moved.column
            } else {
                (W - 1) as usize
            },
        },
    }
}

/// Where `n` clamped steps towards `dir` land.
pub open spec fn pen_walk<const H: usize, const W: usize>(
    p: PixelStrictPosition<H, W>,
    dir: Direction,
    n: nat,
) -> PixelStrictPosition<H, W>
    decreases n,
{
    if n == 0 {
        p
    } else {
        pen_step(pen_walk(p, dir, (n - 1) as nat), dir)
    }
}

/// What painting one cell with the pen's color leaves there: the cell
/// recolored when the color converts into the canvas's color type, the cell
/// itself otherwise.
pub open spec fn pen_paint<P: PixelMutInterface>(cell: P, color: PixelColor) -> P {
    match P::ColorType::spec_from_maybe(Some(color)) {
        Some(c) => cell.spec_with_color(c),
        None => cell,
    }
}

/// What a straight walk of `n` steps leaves behind: every cell off the walk
/// keeps its pixel, and a changed cell is one of the `n` visited positions,
/// painted with the pen's color — and only while the pen was down.
pub open spec fn pen_trail<const H: usize, const W: usize, P: PixelMutInterface>(
    before: PixelTable<H, W, P>,
    after: PixelTable<H, W, P>,
    start: PixelStrictPosition<H, W>,
    dir: Direction,
    n: nat,
    drawing: bool,
    color: PixelColor,
) -> bool {
    forall|i: int, j: int|
        after.cell(i, j) == before.cell(i, j) || (drawing && after.cell(i, j) == pen_paint(
            before.cell(i, j),
            color,
        ) && exists|k: int|
            1 <= k <= n && (#[trigger] pen_walk(start, dir, k as nat)).raw.row as int == i
                && pen_walk(start, dir, k as nat).raw.column as int == j)
}

/// Two walks that each keep or paint cells compose to one that does.
proof fn lemma_pen_compose<const H: usize, const W: usize, P: PixelMutInterface>(
    a: PixelTable<H, W, P>,
    b: PixelTable<H, W, P>,
    c: PixelTable<H, W, P>,
    color: PixelColor,
)
    requires
        pen_kept_or_painted::<H, W, P>(a, b, color),
        pen_kept_or_painted::<H, W, P>(b, c, color),
    ensures
        pen_kept_or_painted::<H, W, P>(a, c, color),
{
    assert forall|i: int, j: int|
        c.cell(i, j) == a.cell(i, j) || c.cell(i, j) == match P::ColorType::spec_from_maybe(
            Some(color),
        ) {
            Some(cc) => a.cell(i, j).spec_with_color(cc),
            None => a.cell(i, j),
        } by {
        match P::ColorType::spec_from_maybe(Some(color)) {
            Some(cc) => {
                a.cell(i, j).pixel_laws(cc);
            },
            None => {},
        }
    }
}

/// What a pen leaves behind: every cell either keeps its pixel or carries
/// the pen's color, converted into the canvas's color type.
pub open spec fn pen_kept_or_painted<const H: usize, const W: usize, P: PixelMutInterface>(
    before: PixelTable<H, W, P>,
    after: PixelTable<H, W, P>,
    color: PixelColor,
) -> bool {
    forall|i: int, j: int|
        after.cell(i, j) == before.cell(i, j) || after.cell(i, j) == match P::ColorType::spec_from_maybe(
            Some(color),
        ) {
            Some(c) => before.cell(i, j).spec_with_color(c),
            None => before.cell(i, j),
        }
}

} // verus!
