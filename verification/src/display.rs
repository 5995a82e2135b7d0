//! The 64 x 32 monochrome framebuffer and its XOR sprite drawing.

use vstd::prelude::*;

verus! {

/// Number of pixel columns.
pub const WIDTH: usize = 64;

/// Number of pixel rows.
pub const HEIGHT: usize = 32;

/// A pixel grid in contracts: `HEIGHT` rows of `WIDTH` pixels each, indexed
/// `[row][column]`, where `true` is a lit pixel.
pub type Grid = Seq<Seq<bool>>;

/// The grid has exactly `HEIGHT` rows of `WIDTH` pixels.
pub open spec fn grid_wf(grid: Grid) -> bool {
    &&& grid.len() == HEIGHT
    &&& forall|r: int| 0 <= r < HEIGHT ==> (#[trigger] grid[r]).len() == WIDTH
}

/// The grid with every pixel off.
pub open spec fn blank_grid() -> Grid {
    Seq::new(HEIGHT as nat, |r: int| Seq::new(WIDTH as nat, |c: int| false))
}

/// Bit `k` of a sprite row, counted from the most significant bit: bit 0 is
/// the leftmost pixel of the row. No bit exists outside `0 .. 8`.
pub open spec fn sprite_bit(byte: u8, k: int) -> bool {
    0 <= k < 8 && (byte >> ((7 - k) as u8)) & 1 == 1
}

/// The column on which bit `k` of a sprite row lands when the row starts at
/// column `origin_x`; columns wrap around the right edge.
pub open spec fn target_col(origin_x: int, k: int) -> int {
    (origin_x + k) % (WIDTH as int)
}

/// The grid row on which row `i` of a sprite lands when the sprite starts at
/// row `origin_y`; rows wrap around the bottom edge.
pub open spec fn target_row(origin_y: int, i: int) -> int {
    (origin_y + i) % (HEIGHT as int)
}

/// Whether a sprite row `byte` starting at column `origin_x` has a set bit
/// landing on column `col`.
pub open spec fn row_mask(byte: u8, origin_x: int, col: int) -> bool {
    sprite_bit(byte, (col - origin_x) % (WIDTH as int))
}

/// The grid after one sprite row is XOR-ed into grid row `row`: a pixel
/// flips exactly where a set sprite bit lands on it.
pub open spec fn xor_row(grid: Grid, origin_x: int, row: int, byte: u8) -> Grid {
    grid.update(
        row,
        Seq::new(WIDTH as nat, |c: int| grid[row][c] != row_mask(byte, origin_x, c)),
    )
}

/// Bit `k` of the sprite row is set and lands on a lit pixel of `grid`.
pub open spec fn bit_hits(grid: Grid, origin_x: int, row: int, byte: u8, k: int) -> bool {
    sprite_bit(byte, k) && grid[row][target_col(origin_x, k)]
}

/// Drawing the sprite row turns at least one lit pixel off.
pub open spec fn row_collides(grid: Grid, origin_x: int, row: int, byte: u8) -> bool {
    exists|k: int| 0 <= k < 8 && #[trigger] bit_hits(grid, origin_x, row, byte, k)
}

/// The grid after the first `rows` rows of `sprite` are drawn, top row
/// first, with the sprite's top-left corner at (`origin_x`, `origin_y`).
pub open spec fn xor_sprite(
    grid: Grid,
    origin_x: int,
    origin_y: int,
    sprite: Seq<u8>,
    rows: nat,
) -> Grid
    decreases rows,
{
    if rows == 0 {
        grid
    } else {
        xor_row(
            xor_sprite(grid, origin_x, origin_y, sprite, (rows - 1) as nat),
            origin_x,
            target_row(origin_y, rows - 1),
            sprite[rows - 1],
        )
    }
}

/// Some pixel went from lit to off while the first `rows` rows of `sprite`
/// were drawn.
pub open spec fn sprite_collides(
    grid: Grid,
    origin_x: int,
    origin_y: int,
    sprite: Seq<u8>,
    rows: nat,
) -> bool
    decreases rows,
{
    rows > 0 && (sprite_collides(grid, origin_x, origin_y, sprite, (rows - 1) as nat)
        || row_collides(
        xor_sprite(grid, origin_x, origin_y, sprite, (rows - 1) as nat),
        origin_x,
        target_row(origin_y, rows - 1),
        sprite[rows - 1],
    ))
}

/// The character that shows a lit pixel, `*`.
pub const GLYPH_LIT: u8 = 0x2A;

/// The character that shows a pixel that is off, a space.
pub const GLYPH_OFF: u8 = 0x20;

/// The character that ends a line of the rendered frame.
pub const LINE_FEED: u8 = 0x0A;

/// Length of one rendered line, its line feed included.
pub const LINE_LENGTH: usize = 65;

/// The frame as text: `HEIGHT` lines of `WIDTH` glyphs, each line ended by
/// a line feed.
pub open spec fn render_spec(grid: Grid) -> Seq<u8> {
    Seq::new(
        (HEIGHT * LINE_LENGTH) as nat,
        |i: int|
            if i % (LINE_LENGTH as int) == WIDTH {
                LINE_FEED
            } else if grid[i / (LINE_LENGTH as int)][i % (LINE_LENGTH as int)] {
                GLYPH_LIT
            } else {
                GLYPH_OFF
            },
    )
}

/// The framebuffer. Each cell holds 0 (off) or 1 (lit) and nothing else.
pub struct Display {
    screen: [[u8; WIDTH]; HEIGHT],
}

impl Display {
    /// Every cell is 0 or 1.
    #[verifier::type_invariant]
    spec fn cells_are_bits(self) -> bool {
        forall|r: int, c: int|
            0 <= r < HEIGHT && 0 <= c < WIDTH ==> #[trigger] self.screen[r][c] <= 1
    }

    /// Whether the pixel at (`row`, `col`) is lit.
    pub closed spec fn pixel(&self, row: int, col: int) -> bool {
        self.screen[row][col] == 1u8
    }

    /// The framebuffer as a grid of `HEIGHT` rows by `WIDTH` columns.
    pub open spec fn view(&self) -> Grid {
        Seq::new(HEIGHT as nat, |r: int| Seq::new(WIDTH as nat, |c: int| self.pixel(r, c)))
    }

    /// A display with every pixel off.
    pub fn new() -> (display: Display)
        ensures
            display@ == blank_grid(),
    {
        let display = Display { screen: [[0u8; WIDTH]; HEIGHT] };
        assert(display@ =~~= blank_grid());
        display
    }

    /// Turns every pixel off.
    pub fn clear(&mut self)
        ensures
            final(self)@ == blank_grid(),
    {
        self.screen = [[0u8; WIDTH]; HEIGHT];
        assert(self@ =~~= blank_grid());
    }

    /// XORs one sprite row into grid row `row`, leftmost bit at column
    /// `origin_x`, and reports whether a lit pixel was turned off.
    fn draw_row(&mut self, origin_x: usize, row: usize, byte: u8) -> (collision: bool)
        requires
            row < HEIGHT,
        ensures
            final(self)@ == xor_row(old(self)@, origin_x as int, row as int, byte),
            collision == row_collides(old(self)@, origin_x as int, row as int, byte),
    {
        let base: usize = origin_x % WIDTH;
        let mut collision = false;
        let mut k: u8 = 0;
        while k < 8
            invariant
                k <= 8,
                row < HEIGHT,
                base == origin_x % WIDTH,
                forall|r: int, c: int|
                    0 <= r < HEIGHT && 0 <= c < WIDTH && r != row ==> self.pixel(r, c) == old(
                        self,
                    ).pixel(r, c),
                forall|c: int|
                    #![trigger self.pixel(row as int, c)]
                    0 <= c < WIDTH ==> self.pixel(row as int, c) == (old(self).pixel(
                        row as int,
                        c,
                    ) != ((c - origin_x) % (WIDTH as int) < k && row_mask(
                        byte,
                        origin_x as int,
                        c,
                    ))),
                collision == (exists|b: int|
                    0 <= b < k && #[trigger] bit_hits(
                        old(self)@,
                        origin_x as int,
                        row as int,
                        byte,
                        b,
                    )),
            decreases 8 - k,
        {
            let col: usize = (base + k as usize) % WIDTH;
            let bit: u8 = (byte >> (7 - k)) & 1;
            let ghost before = *self;
            proof {
                use_type_invariant(&*self);
                lemma_target_col_of_reduced(origin_x as int, k as int);
                lemma_target_col_inverse(origin_x as int, k as int, col as int);
                assert(self.pixel(row as int, col as int) == old(self).pixel(
                    row as int,
                    col as int,
                ));
            }
            if bit == 1 {
                if self.screen[row][col] == 1 {
                    self.screen[row][col] = 0;
                    collision = true;
                    assert(bit_hits(old(self)@, origin_x as int, row as int, byte, k as int));
                } else {
                    self.screen[row][col] = 1;
                }
            }
            proof {
                assert forall|c: int| 0 <= c < WIDTH implies #[trigger] self.pixel(
                    row as int,
                    c,
                ) == (old(self).pixel(row as int, c) != ((c - origin_x) % (WIDTH as int) < k + 1
                    && row_mask(byte, origin_x as int, c))) by {
                    lemma_target_col_inverse(origin_x as int, k as int, c);
                    if c != col {
                        assert(self.pixel(row as int, c) == before.pixel(row as int, c));
                    }
                }
            }
            k += 1;
        }
        assert(self@ =~~= xor_row(old(self)@, origin_x as int, row as int, byte));
        collision
    }

    /// Draws `height` rows of `sprite` with the top-left corner at
    /// (`origin_x`, `origin_y`).
    ///
    /// Row `i` of the sprite is the byte `sprite[i]`; its bits, most
    /// significant first, are XOR-ed into the eight pixels starting at column
    /// `origin_x` of grid row `origin_y + i`. Columns and rows wrap around
    /// the edges. The result tells whether any pixel went from lit to off.
    pub fn draw_sprite(
        &mut self,
        origin_x: usize,
        origin_y: usize,
        height: u8,
        sprite: &[u8],
    ) -> (collision: bool)
        requires
            height <= sprite@.len(),
        ensures
            final(self)@ == xor_sprite(
                old(self)@,
                origin_x as int,
                origin_y as int,
                sprite@,
                height as nat,
            ),
            collision == sprite_collides(
                old(self)@,
                origin_x as int,
                origin_y as int,
                sprite@,
                height as nat,
            ),
    {
        let top: usize = origin_y % HEIGHT;
        let mut collision = false;
        let mut i: u8 = 0;
        while i < height
            invariant
                i <= height,
                height <= sprite@.len(),
                top == origin_y % HEIGHT,
                self@ == xor_sprite(
                    old(self)@,
                    origin_x as int,
                    origin_y as int,
                    sprite@,
                    i as nat,
                ),
                collision == sprite_collides(
                    old(self)@,
                    origin_x as int,
                    origin_y as int,
                    sprite@,
                    i as nat,
                ),
            decreases height - i,
        {
            let row: usize = (top + i as usize) % HEIGHT;
            proof {
                lemma_target_row_of_reduced(origin_y as int, i as int);
            }
            let hit = self.draw_row(origin_x, row, sprite[i as usize]);
            collision = collision || hit;
            i += 1;
        }
        collision
    }

    /// The frame as text: one line of `WIDTH` characters for each row, top
    /// row first, each line ended by a line feed. A lit pixel is `*`, a
    /// pixel that is off is a space.
    pub fn render(&self) -> (text: Vec<u8>)
        ensures
            text@ == render_spec(self@),
    {
        let mut text: Vec<u8> = Vec::new();
        let mut row: usize = 0;
        while row < HEIGHT
            invariant
                row <= HEIGHT,
                text@ == render_spec(self@).take(row * LINE_LENGTH),
            decreases HEIGHT - row,
        {
            let mut col: usize = 0;
            while col < WIDTH
                invariant
                    row < HEIGHT,
                    col <= WIDTH,
                    text@ == render_spec(self@).take(row * LINE_LENGTH + col),
                decreases WIDTH - col,
            {
                let glyph: u8 = if self.screen[row][col] == 1 {
                    GLYPH_LIT
                } else {
                    GLYPH_OFF
                };
                proof {
                    lemma_line_position(row as int, col as int);
                    let at = row * LINE_LENGTH + col;
                    assert(render_spec(self@).take(at + 1) =~= render_spec(self@).take(at).push(
                        glyph,
                    ));
                }
                text.push(glyph);
                col += 1;
            }
            proof {
                lemma_line_position(row as int, WIDTH as int);
                let at = row * LINE_LENGTH + WIDTH;
                assert(render_spec(self@).take(at + 1) =~= render_spec(self@).take(at).push(
                    LINE_FEED,
                ));
            }
            text.push(LINE_FEED);
            row += 1;
        }
        assert(text@ =~= render_spec(self@));
        text
    }

    /// The current pixels for rendering, indexed `[row][column]`; each cell
    /// is 1 where the pixel is lit and 0 where it is off.
    pub fn snapshot(&self) -> (cells: &[[u8; WIDTH]; HEIGHT])
        ensures
            forall|r: int, c: int|
                0 <= r < HEIGHT && 0 <= c < WIDTH ==> #[trigger] cells[r][c] == (if self@[r][c] {
                    1u8
                } else {
                    0u8
                }),
    {
        proof {
            use_type_invariant(self);
        }
        &self.screen
    }
}

/// Whether the first `rows` rows of `sprite` flip pixel (`r`, `c`) an odd
/// number of times. It depends on the sprite and its origin, not on the grid.
pub open spec fn flips(
    origin_x: int,
    origin_y: int,
    sprite: Seq<u8>,
    rows: nat,
    r: int,
    c: int,
) -> bool
    decreases rows,
{
    if rows == 0 {
        false
    } else {
        flips(origin_x, origin_y, sprite, (rows - 1) as nat, r, c) != (target_row(
            origin_y,
            rows - 1,
        ) == r && row_mask(sprite[rows - 1], origin_x, c))
    }
}

/// Whether a sprite of `rows` rows, `rows` at most `HEIGHT`, has a set bit
/// that lands on pixel (`r`, `c`): the sprite row that lands on grid row
/// `r` is row `(r - origin_y) mod HEIGHT`.
pub open spec fn covers(
    origin_x: int,
    origin_y: int,
    sprite: Seq<u8>,
    rows: nat,
    r: int,
    c: int,
) -> bool {
    let i = (r - origin_y) % (HEIGHT as int);
    i < rows && row_mask(sprite[i], origin_x, c)
}

/// Reducing the origin modulo `WIDTH` first does not change the column on
/// which a bit lands.
proof fn lemma_target_col_of_reduced(origin_x: int, k: int)
    requires
        0 <= origin_x,
        0 <= k,
    ensures
        (origin_x % (WIDTH as int) + k) % (WIDTH as int) == target_col(origin_x, k),
        0 <= target_col(origin_x, k) < WIDTH,
{
}

/// Reducing the origin modulo `HEIGHT` first does not change the grid row
/// on which a sprite row lands.
proof fn lemma_target_row_of_reduced(origin_y: int, i: int)
    requires
        0 <= origin_y,
        0 <= i,
    ensures
        (origin_y % (HEIGHT as int) + i) % (HEIGHT as int) == target_row(origin_y, i),
        0 <= target_row(origin_y, i) < HEIGHT,
{
}

/// Column `col` of row `row` is at position `row * LINE_LENGTH + col` of
/// the rendered frame.
proof fn lemma_line_position(row: int, col: int)
    requires
        0 <= row,
        0 <= col < LINE_LENGTH,
    ensures
        (row * LINE_LENGTH + col) / (LINE_LENGTH as int) == row,
        (row * LINE_LENGTH + col) % (LINE_LENGTH as int) == col,
{
}

/// Sprite row `i` lands on grid row `r` exactly when `i` is
/// `(r - origin_y) mod HEIGHT`.
proof fn lemma_target_row_inverse(origin_y: int, i: int, r: int)
    requires
        0 <= i < HEIGHT,
        0 <= r < HEIGHT,
    ensures
        (target_row(origin_y, i) == r) == ((r - origin_y) % (HEIGHT as int) == i),
        0 <= target_row(origin_y, i) < HEIGHT,
{
}

/// Bit `k` of a sprite row lands on column `c` exactly when `k` is
/// `(c - origin_x) mod WIDTH`.
proof fn lemma_target_col_inverse(origin_x: int, k: int, c: int)
    requires
        0 <= k < WIDTH,
        0 <= c < WIDTH,
    ensures
        (target_col(origin_x, k) == c) == ((c - origin_x) % (WIDTH as int) == k),
        0 <= target_col(origin_x, k) < WIDTH,
{
}

/// A sprite row turns a lit pixel off exactly when one of its set bits
/// lands on a lit column.
proof fn lemma_row_collides_by_column(grid: Grid, origin_x: int, row: int, byte: u8)
    ensures
        row_collides(grid, origin_x, row, byte) <==> exists|c: int|
            0 <= c < WIDTH && grid[row][c] && #[trigger] row_mask(byte, origin_x, c),
{
    if row_collides(grid, origin_x, row, byte) {
        let k = choose|k: int| 0 <= k < 8 && #[trigger] bit_hits(grid, origin_x, row, byte, k);
        let c = target_col(origin_x, k);
        lemma_target_col_inverse(origin_x, k, c);
        assert(grid[row][c] && row_mask(byte, origin_x, c));
    }
    if exists|c: int| 0 <= c < WIDTH && grid[row][c] && #[trigger] row_mask(byte, origin_x, c) {
        let c = choose|c: int|
            0 <= c < WIDTH && grid[row][c] && #[trigger] row_mask(byte, origin_x, c);
        let k = (c - origin_x) % (WIDTH as int);
        lemma_target_col_inverse(origin_x, k, c);
        assert(bit_hits(grid, origin_x, row, byte, k));
    }
}

/// One more sprite row covers what the rows before it cover and, on the
/// grid row it lands on, the columns its set bits land on.
proof fn lemma_covers_step(
    origin_x: int,
    origin_y: int,
    sprite: Seq<u8>,
    rows: nat,
    r: int,
    c: int,
)
    requires
        0 < rows <= HEIGHT,
        0 <= r < HEIGHT,
    ensures
        covers(origin_x, origin_y, sprite, rows, r, c) == (covers(
            origin_x,
            origin_y,
            sprite,
            (rows - 1) as nat,
            r,
            c,
        ) || (target_row(origin_y, rows - 1) == r && row_mask(sprite[rows - 1], origin_x, c))),
        target_row(origin_y, rows - 1) == r ==> !covers(
            origin_x,
            origin_y,
            sprite,
            (rows - 1) as nat,
            r,
            c,
        ),
{
    lemma_target_row_inverse(origin_y, rows - 1, r);
}

/// For a sprite of at most `HEIGHT` rows, a pixel flips an odd number of
/// times exactly when the sprite covers it.
proof fn lemma_flips_is_covers(
    origin_x: int,
    origin_y: int,
    sprite: Seq<u8>,
    rows: nat,
    r: int,
    c: int,
)
    requires
        rows <= HEIGHT,
        0 <= r < HEIGHT,
    ensures
        flips(origin_x, origin_y, sprite, rows, r, c) == covers(
            origin_x,
            origin_y,
            sprite,
            rows,
            r,
            c,
        ),
    decreases rows,
{
    if rows > 0 {
        lemma_flips_is_covers(origin_x, origin_y, sprite, (rows - 1) as nat, r, c);
        lemma_covers_step(origin_x, origin_y, sprite, rows, r, c);
    }
}

/// Some lit pixel of `grid` is covered by the sprite.
pub open spec fn covers_lit(
    grid: Grid,
    origin_x: int,
    origin_y: int,
    sprite: Seq<u8>,
    rows: nat,
) -> bool {
    exists|r: int, c: int|
        0 <= r < HEIGHT && 0 <= c < WIDTH && grid[r][c] && #[trigger] covers(
            origin_x,
            origin_y,
            sprite,
            rows,
            r,
            c,
        )
}

/// For a sprite of at most `HEIGHT` rows, the draw collides exactly when
/// the sprite covers a pixel that is lit before the draw.
proof fn lemma_collides_is_covers_lit(
    grid: Grid,
    origin_x: int,
    origin_y: int,
    sprite: Seq<u8>,
    rows: nat,
)
    requires
        grid_wf(grid),
        rows <= HEIGHT,
    ensures
        sprite_collides(grid, origin_x, origin_y, sprite, rows) == covers_lit(
            grid,
            origin_x,
            origin_y,
            sprite,
            rows,
        ),
    decreases rows,
{
    if rows > 0 {
        let n = (rows - 1) as nat;
        let earlier = xor_sprite(grid, origin_x, origin_y, sprite, n);
        let row = target_row(origin_y, rows - 1);
        let byte = sprite[rows - 1];
        lemma_collides_is_covers_lit(grid, origin_x, origin_y, sprite, n);
        // `row` is a row of the grid.
        lemma_target_row_inverse(origin_y, rows - 1, 0);
        // The rows drawn so far have not touched `row`.
        assert(earlier[row] =~= grid[row]) by {
            lemma_xor_sprite_pixels(grid, origin_x, origin_y, sprite, n);
            assert forall|c: int| 0 <= c < WIDTH implies earlier[row][c] == grid[row][c] by {
                lemma_flips_is_covers(origin_x, origin_y, sprite, n, row, c);
                lemma_covers_step(origin_x, origin_y, sprite, rows, row, c);
            }
        }
        lemma_row_collides_by_column(earlier, origin_x, row, byte);
        let on_row = exists|c: int|
            0 <= c < WIDTH && grid[row][c] && #[trigger] row_mask(byte, origin_x, c);
        if covers_lit(grid, origin_x, origin_y, sprite, n) {
            let (r, c) = choose|r: int, c: int|
                0 <= r < HEIGHT && 0 <= c < WIDTH && grid[r][c] && #[trigger] covers(
                    origin_x,
                    origin_y,
                    sprite,
                    n,
                    r,
                    c,
                );
            lemma_covers_step(origin_x, origin_y, sprite, rows, r, c);
        }
        if on_row {
            let c = choose|c: int|
                0 <= c < WIDTH && grid[row][c] && #[trigger] row_mask(byte, origin_x, c);
            lemma_covers_step(origin_x, origin_y, sprite, rows, row, c);
        }
        if covers_lit(grid, origin_x, origin_y, sprite, rows) {
            let (r, c) = choose|r: int, c: int|
                0 <= r < HEIGHT && 0 <= c < WIDTH && grid[r][c] && #[trigger] covers(
                    origin_x,
                    origin_y,
                    sprite,
                    rows,
                    r,
                    c,
                );
            lemma_covers_step(origin_x, origin_y, sprite, rows, r, c);
        }
    }
}

/// Drawing keeps the grid's dimensions, and each pixel of the result is the
/// old pixel flipped exactly when `flips` says so.
pub proof fn lemma_xor_sprite_pixels(
    grid: Grid,
    origin_x: int,
    origin_y: int,
    sprite: Seq<u8>,
    rows: nat,
)
    requires
        grid_wf(grid),
    ensures
        grid_wf(xor_sprite(grid, origin_x, origin_y, sprite, rows)),
        forall|r: int, c: int|
            0 <= r < HEIGHT && 0 <= c < WIDTH ==> #[trigger] xor_sprite(
                grid,
                origin_x,
                origin_y,
                sprite,
                rows,
            )[r][c] == (grid[r][c] != flips(origin_x, origin_y, sprite, rows, r, c)),
    decreases rows,
{
    if rows > 0 {
        lemma_xor_sprite_pixels(grid, origin_x, origin_y, sprite, (rows - 1) as nat);
    }
}

/// If a pixel is lit before a sprite is drawn and off afterwards, the draw
/// reports a collision.
pub proof fn lemma_turned_off_collides(
    grid: Grid,
    origin_x: int,
    origin_y: int,
    sprite: Seq<u8>,
    rows: nat,
    r: int,
    c: int,
)
    requires
        grid_wf(grid),
        0 <= r < HEIGHT,
        0 <= c < WIDTH,
        grid[r][c],
        !xor_sprite(grid, origin_x, origin_y, sprite, rows)[r][c],
    ensures
        sprite_collides(grid, origin_x, origin_y, sprite, rows),
    decreases rows,
{
    if rows > 0 {
        let earlier = xor_sprite(grid, origin_x, origin_y, sprite, (rows - 1) as nat);
        lemma_xor_sprite_pixels(grid, origin_x, origin_y, sprite, (rows - 1) as nat);
        if earlier[r][c] {
            // The last row turned the pixel off: one of its bits lands on it.
            let k = (c - origin_x) % (WIDTH as int);
            lemma_target_col_inverse(origin_x, k, c);
            assert(bit_hits(earlier, origin_x, r, sprite[rows - 1], k));
        } else {
            lemma_turned_off_collides(grid, origin_x, origin_y, sprite, (rows - 1) as nat, r, c);
        }
    }
}

/// A sprite of at most `HEIGHT` rows lands on each grid row at most once,
/// so the drawing can be read off pixel by pixel: the pixel at (`r`, `c`)
/// flips exactly when the sprite covers it, and the draw collides exactly
/// when the sprite covers a pixel that was lit.
pub proof fn lemma_draw_pixelwise(
    grid: Grid,
    origin_x: int,
    origin_y: int,
    sprite: Seq<u8>,
    rows: nat,
)
    requires
        grid_wf(grid),
        rows <= HEIGHT,
    ensures
        forall|r: int, c: int|
            0 <= r < HEIGHT && 0 <= c < WIDTH ==> #[trigger] xor_sprite(
                grid,
                origin_x,
                origin_y,
                sprite,
                rows,
            )[r][c] == (grid[r][c] != covers(origin_x, origin_y, sprite, rows, r, c)),
        sprite_collides(grid, origin_x, origin_y, sprite, rows) == covers_lit(
            grid,
            origin_x,
            origin_y,
            sprite,
            rows,
        ),
{
    lemma_xor_sprite_pixels(grid, origin_x, origin_y, sprite, rows);
    lemma_collides_is_covers_lit(grid, origin_x, origin_y, sprite, rows);
    assert forall|r: int, c: int| 0 <= r < HEIGHT && 0 <= c < WIDTH implies #[trigger] xor_sprite(
        grid,
        origin_x,
        origin_y,
        sprite,
        rows,
    )[r][c] == (grid[r][c] != covers(origin_x, origin_y, sprite, rows, r, c)) by {
        lemma_flips_is_covers(origin_x, origin_y, sprite, rows, r, c);
    }
}

/// XOR drawing undoes itself: drawing the same sprite at the same place a
/// second time gives back the grid as it was before the first draw, and if
/// the first draw lit any pixel, the second draw reports a collision.
pub proof fn lemma_draw_twice_restores(
    grid: Grid,
    origin_x: int,
    origin_y: int,
    sprite: Seq<u8>,
    rows: nat,
)
    requires
        grid_wf(grid),
    ensures
        xor_sprite(
            xor_sprite(grid, origin_x, origin_y, sprite, rows),
            origin_x,
            origin_y,
            sprite,
            rows,
        ) == grid,
        (exists|r: int, c: int|
            0 <= r < HEIGHT && 0 <= c < WIDTH && !grid[r][c] && #[trigger] xor_sprite(
                grid,
                origin_x,
                origin_y,
                sprite,
                rows,
            )[r][c]) ==> sprite_collides(
            xor_sprite(grid, origin_x, origin_y, sprite, rows),
            origin_x,
            origin_y,
            sprite,
            rows,
        ),
{
    let once = xor_sprite(grid, origin_x, origin_y, sprite, rows);
    let twice = xor_sprite(once, origin_x, origin_y, sprite, rows);
    lemma_xor_sprite_pixels(grid, origin_x, origin_y, sprite, rows);
    lemma_xor_sprite_pixels(once, origin_x, origin_y, sprite, rows);
    assert(twice =~~= grid);
    if exists|r: int, c: int|
        0 <= r < HEIGHT && 0 <= c < WIDTH && !grid[r][c] && #[trigger] once[r][c] {
        let (r, c) = choose|r: int, c: int|
            0 <= r < HEIGHT && 0 <= c < WIDTH && !grid[r][c] && #[trigger] once[r][c];
        lemma_turned_off_collides(once, origin_x, origin_y, sprite, rows, r, c);
    }
}

} // verus!
