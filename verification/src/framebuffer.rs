//! The software framebuffer: a contiguous byte allocation interpreted as a
//! `width` x `height` grid of 4-byte RGBA pixels in row-major order, with
//! clear and clipped rectangle-fill primitives.

use vstd::arithmetic::div_mod::lemma_fundamental_div_mod;
use vstd::arithmetic::div_mod::lemma_fundamental_div_mod_converse;
use vstd::prelude::*;

verus! {

/// Total number of bytes for a `w` x `h` pixel grid at 4 bytes per pixel.
pub open spec fn byte_len(w: int, h: int) -> int {
    4 * w * h
}

/// Byte offset of the first byte of pixel `(x, y)` in a grid of width `w`.
pub open spec fn pixel_off(w: int, x: int, y: int) -> int {
    4 * (x + y * w)
}

/// Column of the pixel that byte index `k` belongs to, in a grid of width `w`.
pub open spec fn col_of(w: int, k: int) -> int {
    (k / 4) % w
}

/// Row of the pixel that byte index `k` belongs to, in a grid of width `w`.
pub open spec fn row_of(w: int, k: int) -> int {
    (k / 4) / w
}

/// Does pixel `(i, j)` lie in the rectangle with corner `(x, y)`, width `w`
/// and height `h`?
pub open spec fn in_rect(x: int, y: int, w: int, h: int, i: int, j: int) -> bool {
    x <= i < x + w && y <= j < y + h
}

/// The byte array of a fully cleared allocation of length `n`.
pub open spec fn cleared_bytes(n: nat) -> Seq<u8> {
    Seq::new(n, |k: int| 0u8)
}

/// Each byte of pixel `(x, y)`'s 4-byte slot maps back to column `x` and
/// row `y`.
pub proof fn lemma_slot_col_row(w: int, x: int, y: int, b: int)
    requires
        0 <= x < w,
        0 <= y,
        0 <= b < 4,
    ensures
        col_of(w, pixel_off(w, x, y) + b) == x,
        row_of(w, pixel_off(w, x, y) + b) == y,
{
    let q = x + y * w;
    let k = pixel_off(w, x, y) + b;
    assert(k == q * 4 + b);
    lemma_fundamental_div_mod_converse(k, 4, q, b);
    assert(q == y * w + x);
    lemma_fundamental_div_mod_converse(q, w, y, x);
}

/// Every byte index of a well-formed allocation lies inside the 4-byte slot
/// of its own pixel, whose column and row are in bounds.
pub proof fn lemma_byte_in_own_slot(w: int, h: int, k: int)
    requires
        w > 0,
        h > 0,
        0 <= k < byte_len(w, h),
    ensures
        0 <= col_of(w, k) < w,
        0 <= row_of(w, k) < h,
        pixel_off(w, col_of(w, k), row_of(w, k)) <= k < pixel_off(
            w,
            col_of(w, k),
            row_of(w, k),
        ) + 4,
{
    let q = k / 4;
    lemma_fundamental_div_mod(k, 4);
    lemma_fundamental_div_mod(q, w);
    assert(4 * w * h == 4 * (w * h)) by (nonlinear_arith);
    assert(q < w * h);
    assert(q / w < h) by (nonlinear_arith)
        requires
            w > 0,
            q == w * (q / w) + q % w,
            0 <= q % w < w,
            q < w * h,
    ;
    let r = row_of(w, k);
    assert(r == q / w);
    assert(r * w == w * r) by (nonlinear_arith);
    assert(col_of(w, k) + row_of(w, k) * w == q);
}

/// All four bytes of pixel `(i, j)` hold 0xFF.
pub open spec fn pixel_is_white(s: Seq<u8>, w: int, i: int, j: int) -> bool {
    &&& s[pixel_off(w, i, j)] == 0xFFu8
    &&& s[pixel_off(w, i, j) + 1] == 0xFFu8
    &&& s[pixel_off(w, i, j) + 2] == 0xFFu8
    &&& s[pixel_off(w, i, j) + 3] == 0xFFu8
}

/// All four bytes of pixel `(i, j)` hold zero.
pub open spec fn pixel_is_zero(s: Seq<u8>, w: int, i: int, j: int) -> bool {
    &&& s[pixel_off(w, i, j)] == 0u8
    &&& s[pixel_off(w, i, j) + 1] == 0u8
    &&& s[pixel_off(w, i, j) + 2] == 0u8
    &&& s[pixel_off(w, i, j) + 3] == 0u8
}

/// The byte array that `draw_square(x, y, rw, rh)` leaves behind when it
/// starts from `before` on a grid of width `w`: 0xFF on every byte of a
/// rectangle pixel, the old value everywhere else.
pub open spec fn drawn_bytes(before: Seq<u8>, w: int, x: int, y: int, rw: int, rh: int) -> Seq<
    u8,
> {
    Seq::new(before.len(), |k: int|
        if in_rect(x, y, rw, rh, col_of(w, k), row_of(w, k)) {
            0xFFu8
        } else {
            before[k]
        })
}

/// Clearing is idempotent: clearing an allocation that a clear already
/// produced yields the same byte array again.
pub proof fn lemma_clear_idempotent(n: nat)
    ensures
        cleared_bytes(cleared_bytes(n).len()) == cleared_bytes(n),
{
}

/// After a clear, every byte of the allocation equals zero.
pub proof fn lemma_clear_zeroes(n: nat)
    ensures
        forall|k: int| 0 <= k < n ==> cleared_bytes(n)[k] == 0u8,
{
}

/// A coordinate clipped from below to the grid edge at zero.
pub open spec fn clip_lo(v: int) -> int {
    if v < 0 {
        0
    } else {
        v
    }
}

/// The extent of `[v, v + len)` after intersection with `[0, bound)`.
pub open spec fn clip_len(v: int, len: int, bound: int) -> int {
    (if v + len > bound {
        bound
    } else {
        v + len
    }) - clip_lo(v)
}

/// A grid pixel lies in a rectangle exactly when it lies in that
/// rectangle's intersection with the grid.
pub proof fn lemma_clip_equiv(w: int, h: int, x: int, y: int, rw: int, rh: int, i: int, j: int)
    requires
        0 <= i < w,
        0 <= j < h,
    ensures
        in_rect(x, y, rw, rh, i, j) == in_rect(
            clip_lo(x),
            clip_lo(y),
            clip_len(x, rw, w),
            clip_len(y, rh, h),
            i,
            j,
        ),
{
}

/// Drawing a rectangle produces the same byte array as drawing its
/// intersection with the grid.
pub proof fn lemma_draw_clip_same(
    w: int,
    h: int,
    x: int,
    y: int,
    rw: int,
    rh: int,
    before: Seq<u8>,
)
    requires
        w >= 0,
        h >= 0,
        before.len() == byte_len(w, h),
    ensures
        drawn_bytes(before, w, x, y, rw, rh) == drawn_bytes(
            before,
            w,
            clip_lo(x),
            clip_lo(y),
            clip_len(x, rw, w),
            clip_len(y, rh, h),
        ),
{
    let a = drawn_bytes(before, w, x, y, rw, rh);
    let b = drawn_bytes(before, w, clip_lo(x), clip_lo(y), clip_len(x, rw, w), clip_len(y, rh, h));
    assert forall|k: int| 0 <= k < before.len() implies a[k] == b[k] by {
        assert(w > 0 && h > 0) by (nonlinear_arith)
            requires
                4 * w * h > 0,
                w >= 0,
                h >= 0,
        ;
        lemma_byte_in_own_slot(w, h, k);
        lemma_clip_equiv(w, h, x, y, rw, rh, col_of(w, k), row_of(w, k));
    }
    assert(a =~= b);
}

/// On a cleared buffer, a rectangle drawn wholly inside the grid leaves a
/// pixel's four bytes at 0xFF exactly when the pixel lies in the rectangle,
/// and at zero otherwise.
pub proof fn lemma_rect_inside_bounds(
    w: int,
    h: int,
    x: int,
    y: int,
    rw: int,
    rh: int,
    i: int,
    j: int,
)
    requires
        0 <= x,
        0 <= y,
        x + rw <= w,
        y + rh <= h,
        0 <= i < w,
        0 <= j < h,
    ensures
        in_rect(x, y, rw, rh, i, j) ==> pixel_is_white(
            drawn_bytes(cleared_bytes(byte_len(w, h) as nat), w, x, y, rw, rh),
            w,
            i,
            j,
        ),
        !in_rect(x, y, rw, rh, i, j) ==> pixel_is_zero(
            drawn_bytes(cleared_bytes(byte_len(w, h) as nat), w, x, y, rw, rh),
            w,
            i,
            j,
        ),
{
    lemma_slot_col_row(w, i, j, 0);
    lemma_slot_col_row(w, i, j, 1);
    lemma_slot_col_row(w, i, j, 2);
    lemma_slot_col_row(w, i, j, 3);
    assert(0 <= pixel_off(w, i, j) && pixel_off(w, i, j) + 4 <= byte_len(w, h))
        by (nonlinear_arith)
        requires
            0 <= i < w,
            0 <= j < h,
    ;
}

/// The pixels of the rectangle with corner `(x, y)`, width `w` and height
/// `h`, as a set of coordinate pairs.
pub open spec fn rect_pixels(x: int, y: int, w: int, h: int) -> Set<(int, int)> {
    Set::new(|p: (int, int)| in_rect(x, y, w, h, p.0, p.1))
}

proof fn lemma_row_card(x: int, j: int, w: int)
    requires
        w >= 0,
    ensures
        rect_pixels(x, j, w, 1).finite(),
        rect_pixels(x, j, w, 1).len() == w,
    decreases w,
{
    if w == 0 {
        assert(rect_pixels(x, j, 0, 1) =~= Set::empty());
    } else {
        lemma_row_card(x, j, w - 1);
        assert(rect_pixels(x, j, w, 1) =~= rect_pixels(x, j, w - 1, 1).insert((x + w - 1, j)));
    }
}

/// A rectangle of width `w` and height `h` covers exactly `w * h` pixels.
pub proof fn lemma_rect_card(x: int, y: int, w: int, h: int)
    requires
        w >= 0,
        h >= 0,
    ensures
        rect_pixels(x, y, w, h).finite(),
        rect_pixels(x, y, w, h).len() == w * h,
    decreases h,
{
    if h == 0 {
        assert(rect_pixels(x, y, w, 0) =~= Set::empty());
        assert(w * 0 == 0) by (nonlinear_arith);
    } else {
        let top = rect_pixels(x, y, w, h - 1);
        let row = rect_pixels(x, y + h - 1, w, 1);
        lemma_rect_card(x, y, w, h - 1);
        lemma_row_card(x, y + h - 1, w);
        assert(rect_pixels(x, y, w, h) =~= top + row);
        assert(top.disjoint(row));
        vstd::set_lib::lemma_set_disjoint_lens(top, row);
        assert(w * (h - 1) + w == w * h) by (nonlinear_arith);
    }
}

/// On a cleared buffer, a rectangle drawn wholly inside the grid makes
/// white exactly the rectangle's pixels: `rw * rh` of them.
pub proof fn lemma_rect_exact_count(w: int, h: int, x: int, y: int, rw: int, rh: int)
    requires
        0 <= x,
        0 <= y,
        rw >= 0,
        rh >= 0,
        x + rw <= w,
        y + rh <= h,
    ensures
        (forall|i: int, j: int| 0 <= i < w && 0 <= j < h ==>
            (rect_pixels(x, y, rw, rh).contains((i, j)) <==> pixel_is_white(
                drawn_bytes(cleared_bytes(byte_len(w, h) as nat), w, x, y, rw, rh),
                w,
                i,
                j,
            ))),
        rect_pixels(x, y, rw, rh).len() == rw * rh,
{
    lemma_rect_card(x, y, rw, rh);
    assert forall|i: int, j: int| 0 <= i < w && 0 <= j < h implies (rect_pixels(
        x,
        y,
        rw,
        rh,
    ).contains((i, j)) <==> pixel_is_white(
        drawn_bytes(cleared_bytes(byte_len(w, h) as nat), w, x, y, rw, rh),
        w,
        i,
        j,
    )) by {
        lemma_rect_inside_bounds(w, h, x, y, rw, rh, i, j);
    }
}

/// A software framebuffer owning its byte allocation.
pub struct Buffer {
    pub width: usize,
    pub height: usize,
    pub allocation: Vec<u8>,
}

impl Buffer {
    /// Well-formed: the allocation holds exactly 4 bytes per pixel.
    pub open spec fn wf(self) -> bool {
        self.allocation.len() == byte_len(self.width as int, self.height as int)
    }

    /// Allocate a zero-initialized framebuffer of the given pixel dimensions.
    pub fn new(width: usize, height: usize) -> (b: Buffer)
        requires
            byte_len(width as int, height as int) <= usize::MAX,
        ensures
            b.wf(),
            b.width == width,
            b.height == height,
            b.allocation@ == cleared_bytes((4 * width * height) as nat),
    {
        proof {
            let w = width as int;
            let h = height as int;
            assert(w * h <= 4 * w * h && 4 * (w * h) == 4 * w * h) by (nonlinear_arith)
                requires
                    w >= 0 && h >= 0,
            ;
        }
        let wh: usize = width * height;
        let n: usize = 4 * wh;
        let allocation: Vec<u8> = vec![0u8; n];
        let b = Buffer { width, height, allocation };
        proof {
            assert(b.allocation@ =~= cleared_bytes((4 * width * height) as nat));
        }
        b
    }

    /// Set every byte of the allocation to zero.
    pub fn clear(&mut self)
        ensures
            final(self).width == old(self).width,
            final(self).height == old(self).height,
            final(self).allocation@ == cleared_bytes(old(self).allocation@.len()),
    {
        let n: usize = self.allocation.len();
        let mut i: usize = 0;
        while i < n
            invariant
                i <= n,
                self.allocation@.len() == n,
                self.width == old(self).width,
                self.height == old(self).height,
                forall|k: int| 0 <= k < i ==> self.allocation@[k] == 0u8,
            decreases n - i,
        {
            self.allocation.set(i, 0u8);
            i = i + 1;
        }
        proof {
            assert(self.allocation@ =~= cleared_bytes(old(self).allocation@.len()));
        }
    }

    /// Write the fixed opaque white color into pixel `(x, y)`.
    ///
    /// Out-of-range coordinates are a silent no-op; in range, the pixel's
    /// four bytes become 0xFF and no other byte of the allocation changes.
    pub fn set_pixel(&mut self, x: isize, y: isize)
        requires
            old(self).wf(),
        ensures
            final(self).wf(),
            final(self).width == old(self).width,
            final(self).height == old(self).height,
            final(self).allocation@.len() == old(self).allocation@.len(),
            !(0 <= x < old(self).width && 0 <= y < old(self).height) ==> final(self).allocation@
                == old(self).allocation@,
            (0 <= x < old(self).width && 0 <= y < old(self).height) ==> forall|k: int|
                pixel_off(old(self).width as int, x as int, y as int) <= k < pixel_off(
                    old(self).width as int,
                    x as int,
                    y as int,
                ) + 4 ==> final(self).allocation@[k] == 0xFFu8,
            forall|k: int|
                0 <= k < old(self).allocation@.len() && !(0 <= x < old(self).width && 0 <= y < old(
                    self,
                ).height && pixel_off(old(self).width as int, x as int, y as int) <= k < pixel_off(
                    old(self).width as int,
                    x as int,
                    y as int,
                ) + 4) ==> final(self).allocation@[k] == old(self).allocation@[k],
    {
        if x < 0 || y < 0 {
            return ;
        }
        let xu: usize = x as usize;
        let yu: usize = y as usize;
        if xu >= self.width || yu >= self.height {
            return ;
        }
        proof {
            let w = self.width as int;
            let h = self.height as int;
            let xi = x as int;
            let yi = y as int;
            assert(yi * w <= (h - 1) * w && xi + yi * w < w * h && 4 * (xi + yi * w) + 4 <= 4 * w
                * h) by (nonlinear_arith)
                requires
                    0 <= xi < w,
                    0 <= yi < h,
            ;
        }
        let off: usize = xu + yu * self.width;
        self.allocation.set(4 * off, 0xFF);
        self.allocation.set(4 * off + 1, 0xFF);
        self.allocation.set(4 * off + 2, 0xFF);
        self.allocation.set(4 * off + 3, 0xFF);
    }

    /// Fill the rectangle with corner `(x, y)`, width `width` and height
    /// `height`: every pixel of it that lies inside the grid becomes opaque
    /// white, and every byte outside those pixels keeps its value.
    pub fn draw_square(&mut self, x: isize, y: isize, width: usize, height: usize)
        requires
            old(self).wf(),
            width <= isize::MAX,
            height <= isize::MAX,
            x + width <= isize::MAX,
            y + height <= isize::MAX,
        ensures
            final(self).wf(),
            final(self).width == old(self).width,
            final(self).height == old(self).height,
            final(self).allocation@.len() == old(self).allocation@.len(),
            forall|k: int|
                0 <= k < old(self).allocation@.len() ==> final(self).allocation@[k] == (if in_rect(
                    x as int,
                    y as int,
                    width as int,
                    height as int,
                    col_of(old(self).width as int, k),
                    row_of(old(self).width as int, k),
                ) {
                    0xFFu8
                } else {
                    old(self).allocation@[k]
                }),
            final(self).allocation@ == drawn_bytes(
                old(self).allocation@,
                old(self).width as int,
                x as int,
                y as int,
                width as int,
                height as int,
            ),
    {
        let ghost orig = *self;
        let ghost w = old(self).width as int;
        let ghost h = old(self).height as int;
        let xw: isize = x + (width as isize);
        let yh: isize = y + (height as isize);
        let mut i: isize = x;
        while i < xw
            invariant
                orig.wf(),
                w == orig.width as int,
                h == orig.height as int,
                xw == x + width,
                yh == y + height,
                x <= i <= xw,
                self.width == orig.width,
                self.height == orig.height,
                self.allocation@.len() == orig.allocation@.len(),
                forall|k: int|
                    0 <= k < orig.allocation@.len() ==> self.allocation@[k] == (if in_rect(
                        x as int,
                        y as int,
                        i - x,
                        height as int,
                        col_of(w, k),
                        row_of(w, k),
                    ) {
                        0xFFu8
                    } else {
                        orig.allocation@[k]
                    }),
            decreases xw - i,
        {
            let mut j: isize = y;
            while j < yh
                invariant
                    orig.wf(),
                    w == orig.width as int,
                    h == orig.height as int,
                    yh == y + height,
                    x <= i,
                    y <= j <= yh,
                    self.width == orig.width,
                    self.height == orig.height,
                    self.allocation@.len() == orig.allocation@.len(),
                    forall|k: int|
                        0 <= k < orig.allocation@.len() ==> self.allocation@[k] == (if in_rect(
                            x as int,
                            y as int,
                            i - x,
                            height as int,
                            col_of(w, k),
                            row_of(w, k),
                        ) || (col_of(w, k) == i && y <= row_of(w, k) < j) {
                            0xFFu8
                        } else {
                            orig.allocation@[k]
                        }),
                decreases yh - j,
            {
                self.set_pixel(i, j);
                proof {
                    assert forall|k: int| 0 <= k < orig.allocation@.len() implies self.allocation@[k]
                        == (if in_rect(
                        x as int,
                        y as int,
                        i - x,
                        height as int,
                        col_of(w, k),
                        row_of(w, k),
                    ) || (col_of(w, k) == i && y <= row_of(w, k) < j + 1) {
                        0xFFu8
                    } else {
                        orig.allocation@[k]
                    }) by {
                        assert(w > 0 && h > 0) by (nonlinear_arith)
                            requires
                                4 * w * h > 0,
                                w >= 0,
                                h >= 0,
                        ;
                        lemma_byte_in_own_slot(w, h, k);
                        if 0 <= i < w && 0 <= j < h {
                            lemma_slot_col_row(w, i as int, j as int, 0);
                            lemma_slot_col_row(w, i as int, j as int, 1);
                            lemma_slot_col_row(w, i as int, j as int, 2);
                            lemma_slot_col_row(w, i as int, j as int, 3);
                        }
                    }
                }
                j = j + 1;
            }
            i = i + 1;
        }
        proof {
            assert(self.allocation@ =~= drawn_bytes(
                orig.allocation@,
                w,
                x as int,
                y as int,
                width as int,
                height as int,
            ));
        }
    }
}

} // verus!
