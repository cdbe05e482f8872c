//! A character screen with a cursor, two colours and simple drawing.

use vstd::prelude::*;
use vstd::string::*;
use crate::error::{Error, ErrorView};
use crate::text::{decimal_digits, push_decimal_digits};

verus! {

/// What a `Screen` holds: its size, its cells row by row, the cursor and the
/// colours.
pub struct ScreenView {
    pub width: nat,
    pub height: nat,
    pub cells: Seq<Seq<char>>,
    pub cursor_row: nat,
    pub cursor_col: nat,
    pub fg: u8,
    pub bg: u8,
}

/// The grid in which every cell holds a space.
pub open spec fn blank_cells(width: nat, height: nat) -> Seq<Seq<char>> {
    Seq::new(height, |r: int| Seq::new(width, |c: int| ' '))
}

/// The grid after marking the cell in column `x` of row `y`; a position
/// outside the grid changes nothing.
pub open spec fn plot(cells: Seq<Seq<char>>, x: int, y: int) -> Seq<Seq<char>> {
    if 0 <= y < cells.len() && 0 <= x < cells[y].len() {
        cells.update(y, cells[y].update(x, '#'))
    } else {
        cells
    }
}

/// The absolute value of `v`.
pub open spec fn magnitude(v: int) -> int {
    if v < 0 {
        -v
    } else {
        v
    }
}

/// The step from `from` toward `to`: 1 upward, else -1.
pub open spec fn direction(from: int, to: int) -> int {
    if from < to {
        1
    } else {
        -1
    }
}

/// The rest of a line that has reached `(x, y)` with error term `err`: each
/// round moves one cell along one or both axes and marks the cell reached,
/// until the end point `(x2, y2)` is marked or `rounds` are used up.
pub open spec fn line_rest(
    cells: Seq<Seq<char>>,
    x: int,
    y: int,
    x2: int,
    y2: int,
    dx: int,
    dy: int,
    sx: int,
    sy: int,
    err: int,
    rounds: nat,
) -> Seq<Seq<char>>
    decreases rounds,
{
    if (x == x2 && y == y2) || rounds == 0 {
        cells
    } else {
        let move_x = 2 * err > -dy;
        let move_y = 2 * err < dx;
        let nx = if move_x {
            x + sx
        } else {
            x
        };
        let ny = if move_y {
            y + sy
        } else {
            y
        };
        let nerr = err - (if move_x {
            dy
        } else {
            0
        }) + (if move_y {
            dx
        } else {
            0
        });
        line_rest(plot(cells, nx, ny), nx, ny, x2, y2, dx, dy, sx, sy, nerr, (rounds - 1) as nat)
    }
}

/// The grid after drawing the line from `(x1, y1)` to `(x2, y2)`.
pub open spec fn line_cells(cells: Seq<Seq<char>>, x1: int, y1: int, x2: int, y2: int) -> Seq<
    Seq<char>,
> {
    let dx = magnitude(x2 - x1);
    let dy = magnitude(y2 - y1);
    line_rest(
        plot(cells, x1, y1),
        x1,
        y1,
        x2,
        y2,
        dx,
        dy,
        direction(x1, x2),
        direction(y1, y2),
        dx - dy,
        (dx + dy) as nat,
    )
}

/// The grid after marking the eight cells that mirror `(dx, dy)` around the
/// centre `(x, y)`.
pub open spec fn plot_octants(cells: Seq<Seq<char>>, x: int, y: int, dx: int, dy: int) -> Seq<
    Seq<char>,
> {
    let c1 = plot(cells, x + dx, y + dy);
    let c2 = plot(c1, x + dy, y + dx);
    let c3 = plot(c2, x - dy, y + dx);
    let c4 = plot(c3, x - dx, y + dy);
    let c5 = plot(c4, x - dx, y - dy);
    let c6 = plot(c5, x - dy, y - dx);
    let c7 = plot(c6, x + dy, y - dx);
    plot(c7, x + dx, y - dy)
}

/// The rest of a circle around `(x, y)` from the offset `(dx, dy)` with error
/// term `err`, as long as `dx >= dy`.
pub open spec fn circle_rest(cells: Seq<Seq<char>>, x: int, y: int, dx: int, dy: int, err: int) -> Seq<
    Seq<char>,
>
    decreases dx - dy + 2,
{
    if dx < dy {
        cells
    } else {
        let drawn = plot_octants(cells, x, y, dx, dy);
        let dy1 = if err <= 0 {
            dy + 1
        } else {
            dy
        };
        let err1 = if err <= 0 {
            err + 2 * dy1 + 1
        } else {
            err
        };
        let dx1 = if err1 > 0 {
            dx - 1
        } else {
            dx
        };
        let err2 = if err1 > 0 {
            err1 - (2 * dx1 + 1)
        } else {
            err1
        };
        circle_rest(drawn, x, y, dx1, dy1, err2)
    }
}

/// The grid after drawing the circle of the given radius around `(x, y)`.
pub open spec fn circle_cells(cells: Seq<Seq<char>>, x: int, y: int, radius: int) -> Seq<
    Seq<char>,
> {
    circle_rest(cells, x, y, radius, 0, 0)
}

/// The message of a `locate` outside the screen.
pub open spec fn locate_message(row: nat, col: nat) -> Seq<char> {
    "LOCATE position out of range: ("@ + decimal_digits(row) + ", "@ + decimal_digits(col) + ")"@
}

/// Whether the grid has a cell in column `x` of row `y`.
pub open spec fn on_grid(cells: Seq<Seq<char>>, x: int, y: int) -> bool {
    0 <= y < cells.len() && 0 <= x < cells[y].len()
}

/// Whether the cell in column `x` of row `y` is marked.
pub open spec fn marked(cells: Seq<Seq<char>>, x: int, y: int) -> bool {
    on_grid(cells, x, y) && cells[y][x] == '#'
}

/// Marking a cell marks it, keeps the shape of the grid, and unmarks
/// nothing.
pub proof fn lemma_plot(cells: Seq<Seq<char>>, x: int, y: int, a: int, b: int)
    ensures
        on_grid(plot(cells, x, y), a, b) == on_grid(cells, a, b),
        on_grid(cells, x, y) ==> marked(plot(cells, x, y), x, y),
        marked(cells, a, b) ==> marked(plot(cells, x, y), a, b),
{
}

/// Drawing the rest of a line keeps the shape of the grid and unmarks
/// nothing.
pub proof fn lemma_line_rest_keeps(
    cells: Seq<Seq<char>>,
    x: int,
    y: int,
    x2: int,
    y2: int,
    dx: int,
    dy: int,
    sx: int,
    sy: int,
    err: int,
    rounds: nat,
    a: int,
    b: int,
)
    ensures
        on_grid(line_rest(cells, x, y, x2, y2, dx, dy, sx, sy, err, rounds), a, b) == on_grid(
            cells,
            a,
            b,
        ),
        marked(cells, a, b) ==> marked(
            line_rest(cells, x, y, x2, y2, dx, dy, sx, sy, err, rounds),
            a,
            b,
        ),
    decreases rounds,
{
    if !((x == x2 && y == y2) || rounds == 0) {
        let move_x = 2 * err > -dy;
        let move_y = 2 * err < dx;
        let nx = if move_x {
            x + sx
        } else {
            x
        };
        let ny = if move_y {
            y + sy
        } else {
            y
        };
        let nerr = err - (if move_x {
            dy
        } else {
            0
        }) + (if move_y {
            dx
        } else {
            0
        });
        lemma_plot(cells, nx, ny, a, b);
        lemma_line_rest_keeps(
            plot(cells, nx, ny),
            nx,
            ny,
            x2,
            y2,
            dx,
            dy,
            sx,
            sy,
            nerr,
            (rounds - 1) as nat,
            a,
            b,
        );
    }
}

/// The rest of a line that has `nx` of its `dx` steps along the columns and
/// `ny` of its `dy` steps along the rows behind it reaches its end point and
/// marks it.
proof fn lemma_line_rest_reaches(
    cells: Seq<Seq<char>>,
    x1: int,
    y1: int,
    x2: int,
    y2: int,
    nx: int,
    ny: int,
    rounds: nat,
)
    requires
        0 <= nx <= magnitude(x2 - x1),
        0 <= ny <= magnitude(y2 - y1),
        rounds >= (magnitude(x2 - x1) - nx) + (magnitude(y2 - y1) - ny),
        on_grid(cells, x2, y2),
        nx == magnitude(x2 - x1) && ny == magnitude(y2 - y1) ==> marked(cells, x2, y2),
    ensures
        marked(
            line_rest(
                cells,
                x1 + direction(x1, x2) * nx,
                y1 + direction(y1, y2) * ny,
                x2,
                y2,
                magnitude(x2 - x1),
                magnitude(y2 - y1),
                direction(x1, x2),
                direction(y1, y2),
                magnitude(x2 - x1) - magnitude(y2 - y1) - nx * magnitude(y2 - y1) + ny * magnitude(
                    x2 - x1,
                ),
                rounds,
            ),
            x2,
            y2,
        ),
    decreases rounds,
{
    let dx = magnitude(x2 - x1);
    let dy = magnitude(y2 - y1);
    let sx = direction(x1, x2);
    let sy = direction(y1, y2);
    let x = x1 + sx * nx;
    let y = y1 + sy * ny;
    let err = dx - dy - nx * dy + ny * dx;
    assert(sx * dx == x2 - x1) by (nonlinear_arith)
        requires
            sx == direction(x1, x2),
            dx == magnitude(x2 - x1),
    ;
    assert(sy * dy == y2 - y1) by (nonlinear_arith)
        requires
            sy == direction(y1, y2),
            dy == magnitude(y2 - y1),
    ;
    assert((x == x2) == (nx == dx)) by (nonlinear_arith)
        requires
            x == x1 + sx * nx,
            sx * dx == x2 - x1,
            sx == 1 || sx == -1,
    ;
    assert((y == y2) == (ny == dy)) by (nonlinear_arith)
        requires
            y == y1 + sy * ny,
            sy * dy == y2 - y1,
            sy == 1 || sy == -1,
    ;
    if !(x == x2 && y == y2) {
        assert(rounds > 0);
        let move_x = 2 * err > -dy;
        let move_y = 2 * err < dx;
        if nx == dx {
            assert(2 * err <= -dy) by (nonlinear_arith)
                requires
                    err == dx - dy - nx * dy + ny * dx,
                    nx == dx,
                    0 <= ny < dy,
                    0 <= dx,
            ;
        }
        if ny == dy {
            assert(2 * err >= dx) by (nonlinear_arith)
                requires
                    err == dx - dy - nx * dy + ny * dx,
                    ny == dy,
                    0 <= nx < dx,
                    0 <= dy,
            ;
        }
        let nx2 = if move_x {
            nx + 1
        } else {
            nx
        };
        let ny2 = if move_y {
            ny + 1
        } else {
            ny
        };
        let px = if move_x {
            x + sx
        } else {
            x
        };
        let py = if move_y {
            y + sy
        } else {
            y
        };
        let nerr = err - (if move_x {
            dy
        } else {
            0
        }) + (if move_y {
            dx
        } else {
            0
        });
        assert(px == x1 + sx * nx2) by (nonlinear_arith)
            requires
                x == x1 + sx * nx,
                px == (if move_x {
                    x + sx
                } else {
                    x
                }),
                nx2 == (if move_x {
                    nx + 1
                } else {
                    nx
                }),
        ;
        assert(py == y1 + sy * ny2) by (nonlinear_arith)
            requires
                y == y1 + sy * ny,
                py == (if move_y {
                    y + sy
                } else {
                    y
                }),
                ny2 == (if move_y {
                    ny + 1
                } else {
                    ny
                }),
        ;
        assert(nerr == dx - dy - nx2 * dy + ny2 * dx) by (nonlinear_arith)
            requires
                err == dx - dy - nx * dy + ny * dx,
                nerr == err - (if move_x {
                    dy
                } else {
                    0
                }) + (if move_y {
                    dx
                } else {
                    0
                }),
                nx2 == (if move_x {
                    nx + 1
                } else {
                    nx
                }),
                ny2 == (if move_y {
                    ny + 1
                } else {
                    ny
                }),
        ;
        let drawn = plot(cells, px, py);
        lemma_plot(cells, px, py, x2, y2);
        assert((px == x2) == (nx2 == dx)) by (nonlinear_arith)
            requires
                px == x1 + sx * nx2,
                sx * dx == x2 - x1,
                sx == 1 || sx == -1,
        ;
        assert((py == y2) == (ny2 == dy)) by (nonlinear_arith)
            requires
                py == y1 + sy * ny2,
                sy * dy == y2 - y1,
                sy == 1 || sy == -1,
        ;
        lemma_line_rest_reaches(drawn, x1, y1, x2, y2, nx2, ny2, (rounds - 1) as nat);
    }
}

/// A line marks both its ends, where they lie on the grid.
pub proof fn law_line_marks_its_ends(cells: Seq<Seq<char>>, x1: int, y1: int, x2: int, y2: int)
    ensures
        on_grid(cells, x1, y1) ==> marked(line_cells(cells, x1, y1, x2, y2), x1, y1),
        on_grid(cells, x2, y2) ==> marked(line_cells(cells, x1, y1, x2, y2), x2, y2),
{
    let dx = magnitude(x2 - x1);
    let dy = magnitude(y2 - y1);
    let start = plot(cells, x1, y1);
    lemma_plot(cells, x1, y1, x1, y1);
    lemma_plot(cells, x1, y1, x2, y2);
    lemma_line_rest_keeps(
        start,
        x1,
        y1,
        x2,
        y2,
        dx,
        dy,
        direction(x1, x2),
        direction(y1, y2),
        dx - dy,
        (dx + dy) as nat,
        x1,
        y1,
    );
    if on_grid(cells, x2, y2) {
        assert(direction(x1, x2) * 0 == 0);
        assert(direction(y1, y2) * 0 == 0);
        assert(0 * dy == 0 && 0 * dx == 0);
        if dx == 0 && dy == 0 {
            assert(x1 == x2 && y1 == y2);
        }
        lemma_line_rest_reaches(start, x1, y1, x2, y2, 0, 0, (dx + dy) as nat);
    }
}

/// Simulated screen buffer.
pub struct Screen {
    width: usize,
    height: usize,
    buffer: Vec<Vec<char>>,
    cursor_x: usize,
    cursor_y: usize,
    fg_color: u8,
    bg_color: u8,
}

impl View for Screen {
    type V = ScreenView;

    closed spec fn view(&self) -> ScreenView {
        ScreenView {
            width: self.width as nat,
            height: self.height as nat,
            cells: Seq::new(self.buffer@.len(), |r: int| self.buffer@[r]@),
            cursor_row: self.cursor_y as nat,
            cursor_col: self.cursor_x as nat,
            fg: self.fg_color,
            bg: self.bg_color,
        }
    }
}

fn blank_row(width: usize) -> (row: Vec<char>)
    ensures
        row@ == Seq::new(width as nat, |c: int| ' '),
{
    let mut row: Vec<char> = Vec::new();
    let mut c: usize = 0;
    while c < width
        invariant
            c <= width,
            row@ == Seq::new(c as nat, |k: int| ' '),
        decreases width - c,
    {
        row.push(' ');
        c = c + 1;
        assert(row@ =~= Seq::new(c as nat, |k: int| ' '));
    }
    row
}

fn blank_buffer(width: usize, height: usize) -> (buffer: Vec<Vec<char>>)
    ensures
        buffer@.len() == height,
        forall|r: int| 0 <= r < height ==> (#[trigger] buffer@[r])@ == Seq::new(width as nat, |c: int| ' '),
{
    let mut buffer: Vec<Vec<char>> = Vec::new();
    let mut r: usize = 0;
    while r < height
        invariant
            r <= height,
            buffer@.len() == r,
            forall|k: int| 0 <= k < r ==> (#[trigger] buffer@[k])@ == Seq::new(width as nat, |c: int| ' '),
        decreases height - r,
    {
        buffer.push(blank_row(width));
        r = r + 1;
    }
    buffer
}

impl Screen {
    /// The buffer has `height` rows of `width` cells.
    pub closed spec fn wf(&self) -> bool {
        &&& self.buffer@.len() == self.height
        &&& forall|r: int| 0 <= r < self.height ==> (#[trigger] self.buffer@[r])@.len() == self.width
    }

    /// The cells of a screen are `height` rows of `width` cells each.
    pub proof fn lemma_shape(&self)
        requires
            self.wf(),
        ensures
            self@.cells.len() == self@.height,
            forall|r: int| 0 <= r < self@.height ==> (#[trigger] self@.cells[r]).len() == self@.width,
    {
    }

    /// A blank screen of the given size, cursor at the top left, light grey on
    /// black.
    pub fn new(width: usize, height: usize) -> (s: Self)
        ensures
            s.wf(),
            s@ == (ScreenView {
                width: width as nat,
                height: height as nat,
                cells: blank_cells(width as nat, height as nat),
                cursor_row: 0,
                cursor_col: 0,
                fg: 7,
                bg: 0,
            }),
    {
        let s = Screen {
            width,
            height,
            buffer: blank_buffer(width, height),
            cursor_x: 0,
            cursor_y: 0,
            fg_color: 7,
            bg_color: 0,
        };
        assert(s@.cells =~= blank_cells(width as nat, height as nat));
        s
    }

    /// Blanks every cell and moves the cursor to the top left.
    pub fn cls(&mut self)
        requires
            old(self).wf(),
        ensures
            final(self).wf(),
            final(self)@ == (ScreenView {
                cells: blank_cells(old(self)@.width, old(self)@.height),
                cursor_row: 0,
                cursor_col: 0,
                ..old(self)@
            }),
    {
        self.buffer = blank_buffer(self.width, self.height);
        self.cursor_x = 0;
        self.cursor_y = 0;
        assert(self@.cells =~= blank_cells(old(self)@.width, old(self)@.height));
    }

    /// Moves the cursor to `(row, col)`, counted from zero; a position outside
    /// the screen is refused and leaves the screen as it was.
    pub fn locate(&mut self, row: usize, col: usize) -> (r: Result<(), Error>)
        requires
            old(self).wf(),
        ensures
            final(self).wf(),
            row < old(self)@.height && col < old(self)@.width ==> r is Ok && final(self)@ == (
            ScreenView { cursor_row: row as nat, cursor_col: col as nat, ..old(self)@ }),
            !(row < old(self)@.height && col < old(self)@.width) ==> r is Err && r->Err_0@
                == ErrorView::RuntimeError(locate_message(row as nat, col as nat)) && final(self)@
                == old(self)@,
    {
        if row >= self.height || col >= self.width {
            let mut msg = String::from_str("LOCATE position out of range: (");
            push_decimal_digits(&mut msg, row as u64);
            msg.append(", ");
            push_decimal_digits(&mut msg, col as u64);
            msg.append(")");
            return Err(Error::RuntimeError(msg));
        }
        self.cursor_y = row;
        self.cursor_x = col;
        Ok(())
    }

    /// Sets the foreground and the background colour, each only where one is
    /// given.
    pub fn color(&mut self, fg: Option<u8>, bg: Option<u8>)
        requires
            old(self).wf(),
        ensures
            final(self).wf(),
            final(self)@ == (ScreenView {
                fg: if fg is Some {
                    fg->Some_0
                } else {
                    old(self)@.fg
                },
                bg: if bg is Some {
                    bg->Some_0
                } else {
                    old(self)@.bg
                },
                ..old(self)@
            }),
    {
        if let Some(foreground) = fg {
            self.fg_color = foreground;
        }
        if let Some(background) = bg {
            self.bg_color = background;
        }
    }

    fn mark(&mut self, x: i64, y: i64)
        requires
            old(self).wf(),
        ensures
            final(self).wf(),
            final(self)@ == (ScreenView { cells: plot(old(self)@.cells, x as int, y as int), ..old(self)@ }),
    {
        if x < 0 || y < 0 || x as u64 >= self.width as u64 || y as u64 >= self.height as u64 {
            assert(self@.cells =~= plot(old(self)@.cells, x as int, y as int));
            return ;
        }
        let row: usize = y as usize;
        let col: usize = x as usize;
        self.buffer[row][col] = '#';
        assert(self@.cells =~= plot(old(self)@.cells, x as int, y as int)) by {
            let a = self@.cells;
            let b = plot(old(self)@.cells, x as int, y as int);
            assert(a.len() == b.len());
            assert forall|r: int| 0 <= r < a.len() implies a[r] == b[r] by {
                if r == y as int {
                    assert(a[r] =~= b[r]);
                }
            }
        }
    }

    /// Marks the cell in column `x` of row `y`; a position outside the screen
    /// is ignored.
    pub fn pset(&mut self, x: i32, y: i32, color: Option<u8>) -> (r: Result<(), Error>)
        requires
            old(self).wf(),
        ensures
            r is Ok,
            final(self).wf(),
            final(self)@ == (ScreenView { cells: plot(old(self)@.cells, x as int, y as int), ..old(self)@ }),
            !(0 <= x < old(self)@.width && 0 <= y < old(self)@.height) ==> final(self)@ == old(self)@,
            0 <= x < old(self)@.width && 0 <= y < old(self)@.height ==> final(self)@.cells
                == old(self)@.cells.update(y as int, old(self)@.cells[y as int].update(x as int, '#')),
    {
        self.mark(x as i64, y as i64);
        Ok(())
    }

    /// Draws the line from `(x1, y1)` to `(x2, y2)`, one cell at a time.
    pub fn line(&mut self, x1: i32, y1: i32, x2: i32, y2: i32, color: Option<u8>) -> (r: Result<
        (),
        Error,
    >)
        requires
            old(self).wf(),
        ensures
            r is Ok,
            final(self).wf(),
            final(self)@ == (ScreenView {
                cells: line_cells(old(self)@.cells, x1 as int, y1 as int, x2 as int, y2 as int),
                ..old(self)@
            }),
    {
        let right: bool = x1 < x2;
        let down: bool = y1 < y2;
        let dx: i64 = if right {
            x2 as i64 - x1 as i64
        } else {
            x1 as i64 - x2 as i64
        };
        let dy: i64 = if down {
            y2 as i64 - y1 as i64
        } else {
            y1 as i64 - y2 as i64
        };
        let sx: i64 = if right {
            1
        } else {
            -1
        };
        let sy: i64 = if down {
            1
        } else {
            -1
        };
        let mut err: i64 = dx - dy;
        let mut x: i64 = x1 as i64;
        let mut y: i64 = y1 as i64;
        let ghost mut nx: int = 0;
        let ghost mut ny: int = 0;
        let ghost mut rounds: nat = (dx + dy) as nat;
        let ghost whole = line_cells(old(self)@.cells, x1 as int, y1 as int, x2 as int, y2 as int);
        self.mark(x, y);
        while !(x == x2 as i64 && y == y2 as i64)
            invariant
                self.wf(),
                0 <= dx <= 0x1_0000_0000,
                0 <= dy <= 0x1_0000_0000,
                dx == magnitude(x2 - x1),
                dy == magnitude(y2 - y1),
                sx == direction(x1 as int, x2 as int),
                sy == direction(y1 as int, y2 as int),
                right == (x1 < x2),
                down == (y1 < y2),
                0 <= nx <= dx,
                0 <= ny <= dy,
                x == (if right {
                    x1 + nx
                } else {
                    x1 - nx
                }),
                y == (if down {
                    y1 + ny
                } else {
                    y1 - ny
                }),
                err == dx - dy - nx * dy + ny * dx,
                -2 * dy <= err <= 2 * dx,
                rounds >= (dx - nx) + (dy - ny),
                self@ == (ScreenView { cells: self@.cells, ..old(self)@ }),
                whole == line_rest(
                    self@.cells,
                    x as int,
                    y as int,
                    x2 as int,
                    y2 as int,
                    dx as int,
                    dy as int,
                    sx as int,
                    sy as int,
                    err as int,
                    rounds,
                ),
            decreases (dx - nx) + (dy - ny),
        {
            let move_x: bool = 2 * err > -dy;
            let move_y: bool = 2 * err < dx;
            proof {
                if nx == dx {
                    assert(2 * err <= -dy) by (nonlinear_arith)
                        requires
                            err == dx - dy - nx * dy + ny * dx,
                            nx == dx,
                            0 <= ny < dy,
                            0 <= dx,
                    ;
                }
                if ny == dy {
                    assert(2 * err >= dx) by (nonlinear_arith)
                        requires
                            err == dx - dy - nx * dy + ny * dx,
                            ny == dy,
                            0 <= nx < dx,
                            0 <= dy,
                    ;
                }
                assert((nx + 1) * dy == nx * dy + dy) by (nonlinear_arith);
                assert((ny + 1) * dx == ny * dx + dx) by (nonlinear_arith);
            }
            if move_x {
                err = err - dy;
                x = x + sx;
                proof {
                    nx = nx + 1;
                }
            }
            if move_y {
                err = err + dx;
                y = y + sy;
                proof {
                    ny = ny + 1;
                }
            }
            proof {
                rounds = (rounds - 1) as nat;
            }
            self.mark(x, y);
        }
        Ok(())
    }

    /// Draws the circle of the given radius around `(x, y)`; a negative
    /// radius draws nothing.
    pub fn circle(&mut self, x: i32, y: i32, radius: i32, color: Option<u8>) -> (r: Result<
        (),
        Error,
    >)
        requires
            old(self).wf(),
        ensures
            r is Ok,
            final(self).wf(),
            final(self)@ == (ScreenView {
                cells: circle_cells(old(self)@.cells, x as int, y as int, radius as int),
                ..old(self)@
            }),
    {
        let cx: i64 = x as i64;
        let cy: i64 = y as i64;
        let mut dx: i64 = radius as i64;
        let mut dy: i64 = 0;
        let mut err: i64 = 0;
        let ghost whole = circle_cells(old(self)@.cells, x as int, y as int, radius as int);
        while dx >= dy
            invariant
                self.wf(),
                cx == x,
                cy == y,
                -1 <= dx <= radius || dx == radius,
                0 <= dy <= 0x8000_0001,
                dx <= 0x8000_0000,
                -0x2_0000_0002 <= err <= 0x3_0000_0000,
                dx >= dy ==> err <= 2 * dy + 2,
                self@ == (ScreenView { cells: self@.cells, ..old(self)@ }),
                whole == circle_rest(self@.cells, x as int, y as int, dx as int, dy as int, err as int),
            decreases dx - dy + 2,
        {
            self.mark(cx + dx, cy + dy);
            self.mark(cx + dy, cy + dx);
            self.mark(cx - dy, cy + dx);
            self.mark(cx - dx, cy + dy);
            self.mark(cx - dx, cy - dy);
            self.mark(cx - dy, cy - dx);
            self.mark(cx + dy, cy - dx);
            self.mark(cx + dx, cy - dy);
            if err <= 0 {
                dy = dy + 1;
                err = err + (2 * dy + 1);
            }
            if err > 0 {
                dx = dx - 1;
                err = err - (2 * dx + 1);
            }
        }
        Ok(())
    }

    /// The size as `(height, width)`.
    pub fn get_size(&self) -> (r: (usize, usize))
        ensures
            r.0 == self@.height,
            r.1 == self@.width,
    {
        (self.height, self.width)
    }

    /// The cursor as `(row, column)`.
    pub fn get_cursor(&self) -> (r: (usize, usize))
        ensures
            r.0 == self@.cursor_row,
            r.1 == self@.cursor_col,
    {
        (self.cursor_y, self.cursor_x)
    }

    /// The character in column `col` of row `row`, if the screen has that
    /// cell.
    pub fn cell(&self, row: usize, col: usize) -> (r: Option<char>)
        requires
            self.wf(),
        ensures
            row < self@.height && col < self@.width ==> r == Some(self@.cells[row as int][col as int]),
            !(row < self@.height && col < self@.width) ==> r is None,
    {
        if row < self.height && col < self.width {
            Some(self.buffer[row][col])
        } else {
            None
        }
    }
}

impl Default for Screen {
    /// A blank screen of 25 rows of 80 columns.
    fn default() -> (s: Self)
        ensures
            s.wf(),
            s@ == (ScreenView {
                width: 80,
                height: 25,
                cells: blank_cells(80, 25),
                cursor_row: 0,
                cursor_col: 0,
                fg: 7,
                bg: 0,
            }),
    {
        Screen::new(80, 25)
    }
}

} // verus!
