//! The pattern texture generator: specification of palette rotation and the
//! row-by-row bitmap layout, the executable generator, and the proved
//! properties of its output.

use vstd::prelude::*;

verus! {

/// Error returned when a palette does not fit the requested bitmap width.
#[derive(Clone, Copy, Debug, PartialEq, Eq, Structural)]
pub enum PatternError {
    /// The palette's byte length is not exactly `width * 4`
    /// (one 4-byte RGBA color per pixel of a row).
    SizeMismatch,
}

/// A palette cyclically rotated right by one color slot: the last 4 bytes
/// (one RGBA color) move to the front. A sequence shorter than one color
/// slot is left unchanged.
pub open spec fn rotate_right_one(p: Seq<u8>) -> Seq<u8> {
    if p.len() < 4 {
        p
    } else {
        p.subrange(p.len() - 4, p.len() as int) + p.subrange(0, p.len() - 4)
    }
}

/// A palette cyclically rotated right by `k` color slots: `k` single
/// rotations in turn.
pub open spec fn rotate_right_by(p: Seq<u8>, k: nat) -> Seq<u8>
    decreases k,
{
    if k == 0 {
        p
    } else {
        rotate_right_one(rotate_right_by(p, (k - 1) as nat))
    }
}

/// The first `rows` rows of the pattern bitmap, concatenated in order:
/// row `y` is the palette rotated right by `y` color slots.
pub open spec fn pattern_rows(p: Seq<u8>, rows: nat) -> Seq<u8>
    decreases rows,
{
    if rows == 0 {
        Seq::empty()
    } else {
        pattern_rows(p, (rows - 1) as nat) + rotate_right_by(p, (rows - 1) as nat)
    }
}

/// The whole n-by-n pattern bitmap as one byte sequence, row-major.
pub open spec fn pattern_bytes(p: Seq<u8>, n: nat) -> Seq<u8> {
    pattern_rows(p, n)
}

/// Row `k` of a bitmap whose rows are `n` pixels (`n * 4` bytes) wide:
/// the bytes from `k * n * 4` up to `(k + 1) * n * 4`.
pub open spec fn row(s: Seq<u8>, n: nat, k: nat) -> Seq<u8> {
    let width = (n * 4) as int;
    s.subrange(k * width, (k + 1) * width)
}

/// Every pixel is fully opaque: each 4-byte RGBA group ends in an alpha
/// byte of 255.
pub open spec fn alpha_opaque(s: Seq<u8>) -> bool {
    forall|i: int| 0 <= i < s.len() && i % 4 == 3 ==> s[i] == 255
}

/// The fixed eight-color palette of the debug texture, 32 bytes of RGBA8.
pub open spec fn default_palette_spec() -> Seq<u8> {
    seq![
        255u8, 102u8, 159u8, 255u8,
        255u8, 159u8, 102u8, 255u8,
        236u8, 255u8, 102u8, 255u8,
        121u8, 255u8, 102u8, 255u8,
        102u8, 255u8, 198u8, 255u8,
        102u8, 198u8, 255u8, 255u8,
        121u8, 102u8, 255u8, 255u8,
        236u8, 102u8, 255u8, 255u8,
    ]
}

/// Builds the fixed eight-color palette: 32 bytes, one RGBA color per
/// texture column.
pub fn default_palette() -> (p: Vec<u8>)
    ensures
        p@ == default_palette_spec(),
{
    let p: Vec<u8> = vec![
        255u8, 102u8, 159u8, 255u8,
        255u8, 159u8, 102u8, 255u8,
        236u8, 255u8, 102u8, 255u8,
        121u8, 255u8, 102u8, 255u8,
        102u8, 255u8, 198u8, 255u8,
        102u8, 198u8, 255u8, 255u8,
        121u8, 102u8, 255u8, 255u8,
        236u8, 102u8, 255u8, 255u8,
    ];
    proof {
        assert(p@ =~= default_palette_spec());
    }
    p
}

/// Rotation keeps the palette's length.
pub proof fn lemma_rotate_right_by_len(p: Seq<u8>, k: nat)
    ensures
        rotate_right_by(p, k).len() == p.len(),
    decreases k,
{
    if k > 0 {
        lemma_rotate_right_by_len(p, (k - 1) as nat);
    }
}

/// The first `rows` rows of the pattern hold `rows` times the palette's
/// byte length.
pub proof fn lemma_pattern_rows_len(p: Seq<u8>, rows: nat)
    ensures
        pattern_rows(p, rows).len() == rows * (p.len() as int),
    decreases rows,
{
    if rows > 0 {
        let prev = (rows - 1) as nat;
        lemma_pattern_rows_len(p, prev);
        lemma_rotate_right_by_len(p, prev);
        assert(pattern_rows(p, rows).len() == prev * (p.len() as int) + p.len());
        assert(prev * (p.len() as int) + p.len() == rows * (p.len() as int)) by (nonlinear_arith)
            requires
                rows >= 1 && prev == rows - 1,
        ;
    } else {
        assert(rows * (p.len() as int) == 0) by (nonlinear_arith)
            requires
                rows == 0,
        ;
    }
}

/// The output's length is always exactly `n * n * 4`: `n` rows of `n`
/// pixels, 4 bytes each.
pub proof fn lemma_pattern_bytes_len(p: Seq<u8>, n: nat)
    requires
        p.len() == n * 4,
    ensures
        pattern_bytes(p, n).len() == n * n * 4,
{
    lemma_pattern_rows_len(p, n);
    assert(n * (p.len() as int) == n * n * 4) by (nonlinear_arith)
        requires
            p.len() == n * 4,
    ;
}

/// Within the first `rows` rows of the pattern, the bytes of row `k` are
/// the palette rotated right by `k` color slots.
proof fn lemma_rows_slice(p: Seq<u8>, rows: nat, k: nat)
    requires
        k < rows,
    ensures
        pattern_rows(p, rows).subrange(
            k * (p.len() as int),
            (k + 1) * (p.len() as int),
        ) == rotate_right_by(p, k),
    decreases rows,
{
    let len = p.len() as int;
    let prev = (rows - 1) as nat;
    let whole = pattern_rows(p, rows);
    let front = pattern_rows(p, prev);
    let last = rotate_right_by(p, prev);
    lemma_pattern_rows_len(p, rows);
    lemma_pattern_rows_len(p, prev);
    lemma_rotate_right_by_len(p, prev);
    if k == prev {
        assert(whole.subrange(k * len, (k + 1) * len) =~= last);
    } else {
        lemma_rows_slice(p, prev, k);
        assert((k + 1) * len <= prev * len) by (nonlinear_arith)
            requires
                len >= 0 && k + 1 <= prev,
        ;
        assert(k * len >= 0) by (nonlinear_arith)
            requires
                len >= 0 && k >= 0,
        ;
        assert(k * len <= (k + 1) * len) by (nonlinear_arith)
            requires
                len >= 0,
        ;
        assert(whole.subrange(k * len, (k + 1) * len) =~= front.subrange(
            k * len,
            (k + 1) * len,
        ));
    }
}

/// Row `k` of the generated n-by-n bitmap equals the initial palette
/// cyclically rotated right by `k` color slots, for every `k < n`.
pub proof fn lemma_pattern_row(p: Seq<u8>, n: nat, k: nat)
    requires
        p.len() == n * 4,
        k < n,
    ensures
        row(pattern_bytes(p, n), n, k) == rotate_right_by(p, k),
{
    lemma_rows_slice(p, n, k);
}

/// Row 0 of the generated bitmap equals the initial palette byte for byte.
pub proof fn lemma_pattern_first_row(p: Seq<u8>, n: nat)
    requires
        p.len() == n * 4,
        0 < n,
    ensures
        row(pattern_bytes(p, n), n, 0) == p,
{
    lemma_pattern_row(p, n, 0);
}

/// Repeated single rotations amount to one cyclic rotation: rotating
/// right by `k` color slots moves the last `4 * k` bytes, in order, to
/// the front of the palette.
pub proof fn lemma_rotate_right_by_slices(p: Seq<u8>, k: nat)
    requires
        4 * k <= p.len(),
    ensures
        rotate_right_by(p, k) == p.subrange(p.len() - 4 * k, p.len() as int) + p.subrange(
            0,
            p.len() - 4 * k,
        ),
    decreases k,
{
    let len = p.len() as int;
    if k == 0 {
        assert(rotate_right_by(p, 0) =~= p.subrange(len - 0, len) + p.subrange(0, len - 0));
    } else {
        let prev = (k - 1) as nat;
        lemma_rotate_right_by_slices(p, prev);
        lemma_rotate_right_by_len(p, prev);
        assert(rotate_right_by(p, k) =~= p.subrange(len - 4 * k, len) + p.subrange(
            0,
            len - 4 * k,
        ));
    }
}

/// A single rotation moves whole color slots, so it keeps every alpha
/// byte in an alpha position.
proof fn lemma_rotate_one_alpha(p: Seq<u8>)
    requires
        p.len() % 4 == 0,
        alpha_opaque(p),
    ensures
        alpha_opaque(rotate_right_one(p)),
{
    if p.len() >= 4 {
        let r = rotate_right_one(p);
        assert forall|i: int| 0 <= i < r.len() && i % 4 == 3 implies r[i] == 255 by {
            if i < 4 {
                assert(r[i] == p[p.len() - 4 + i]);
                assert((p.len() - 4 + i) % 4 == 3);
            } else {
                assert(r[i] == p[i - 4]);
                assert((i - 4) % 4 == 3);
            }
        }
    }
}

/// Any number of rotations keeps every alpha byte in an alpha position.
proof fn lemma_rotate_by_alpha(p: Seq<u8>, k: nat)
    requires
        p.len() % 4 == 0,
        alpha_opaque(p),
    ensures
        alpha_opaque(rotate_right_by(p, k)),
    decreases k,
{
    if k > 0 {
        let prev = (k - 1) as nat;
        lemma_rotate_by_alpha(p, prev);
        lemma_rotate_right_by_len(p, prev);
        lemma_rotate_one_alpha(rotate_right_by(p, prev));
    }
}

/// Concatenating opaque bitmaps along a whole-pixel boundary keeps every
/// pixel opaque.
proof fn lemma_concat_alpha(a: Seq<u8>, b: Seq<u8>)
    requires
        a.len() % 4 == 0,
        alpha_opaque(a),
        alpha_opaque(b),
    ensures
        alpha_opaque(a + b),
{
    assert forall|i: int| 0 <= i < (a + b).len() && i % 4 == 3 implies (a + b)[i] == 255 by {
        if i < a.len() {
            assert((a + b)[i] == a[i]);
        } else {
            assert((a + b)[i] == b[i - a.len()]);
            assert((i - a.len()) % 4 == 3);
        }
    }
}

/// When every color of the palette ends in an alpha byte of 255, so does
/// every 4-byte pixel of the generated bitmap, whatever its size.
pub proof fn lemma_pattern_alpha(p: Seq<u8>, n: nat)
    requires
        p.len() % 4 == 0,
        alpha_opaque(p),
    ensures
        alpha_opaque(pattern_bytes(p, n)),
    decreases n,
{
    if n > 0 {
        let prev = (n - 1) as nat;
        lemma_pattern_alpha(p, prev);
        lemma_rotate_by_alpha(p, prev);
        lemma_pattern_rows_len(p, prev);
        let len = p.len() as int;
        let quarters = len / 4;
        let total = pattern_rows(p, prev).len() as int;
        assert(len == 4 * quarters);
        assert(total == (prev * quarters) * 4) by (nonlinear_arith)
            requires
                total == prev * (4 * quarters),
        ;
        vstd::arithmetic::div_mod::lemma_mod_multiples_basic(prev * quarters, 4);
        lemma_concat_alpha(pattern_rows(p, prev), rotate_right_by(p, prev));
    }
}

/// The fixed palette is fully opaque: each of its eight colors ends in an
/// alpha byte of 255.
pub proof fn lemma_default_palette_alpha()
    ensures
        alpha_opaque(default_palette_spec()),
{
    let p = default_palette_spec();
    assert forall|i: int| 0 <= i < p.len() && i % 4 == 3 implies p[i] == 255 by {
        assert(p[3] == 255);
        assert(p[7] == 255);
        assert(p[11] == 255);
        assert(p[15] == 255);
        assert(p[19] == 255);
        assert(p[23] == 255);
        assert(p[27] == 255);
        assert(p[31] == 255);
    }
}

/// Every pixel of the debug texture itself is fully opaque.
pub proof fn lemma_debug_texture_alpha()
    ensures
        alpha_opaque(pattern_bytes(default_palette_spec(), TEXTURE_SIZE as nat)),
{
    lemma_default_palette_alpha();
    lemma_pattern_alpha(default_palette_spec(), TEXTURE_SIZE as nat);
}

/// The pattern is a function of the palette and size alone: any two
/// outputs for the same inputs are byte-identical.
pub proof fn lemma_pattern_deterministic(p: Seq<u8>, n: nat, a: Seq<u8>, b: Seq<u8>)
    requires
        a == pattern_bytes(p, n),
        b == pattern_bytes(p, n),
    ensures
        a == b,
{
}

/// Copies a byte vector element by element.
fn copy_bytes(src: &Vec<u8>) -> (r: Vec<u8>)
    ensures
        r@ == src@,
{
    let mut r: Vec<u8> = Vec::new();
    let mut i: usize = 0;
    while i < src.len()
        invariant
            i <= src@.len(),
            r@ == src@.subrange(0, i as int),
        decreases src@.len() - i,
    {
        r.push(src[i]);
        proof {
            assert(r@ =~= src@.subrange(0, i + 1));
        }
        i = i + 1;
    }
    proof {
        assert(src@.subrange(0, src@.len() as int) =~= src@);
    }
    r
}

/// Returns the palette rotated right by one color slot: the last 4 bytes
/// first, then all the others in order.
fn rotated_palette(pal: &Vec<u8>) -> (r: Vec<u8>)
    requires
        pal@.len() >= 4,
    ensures
        r@ == rotate_right_one(pal@),
{
    let len = pal.len();
    let mut r: Vec<u8> = Vec::new();
    let mut j: usize = 0;
    while j < 4
        invariant
            j <= 4,
            len == pal@.len(),
            4 <= len,
            r@ == pal@.subrange(len - 4, len - 4 + j),
        decreases 4 - j,
    {
        r.push(pal[len - 4 + j]);
        proof {
            assert(r@ =~= pal@.subrange(len - 4, len - 4 + (j + 1)));
        }
        j = j + 1;
    }
    let mut i: usize = 0;
    while i < len - 4
        invariant
            i <= len - 4,
            len == pal@.len(),
            4 <= len,
            r@ == pal@.subrange(len - 4, len as int) + pal@.subrange(0, i as int),
        decreases len - 4 - i,
    {
        r.push(pal[i]);
        proof {
            assert(r@ =~= pal@.subrange(len - 4, len as int) + pal@.subrange(0, i + 1));
        }
        i = i + 1;
    }
    r
}

/// Generates the n-by-n RGBA pattern bitmap for `palette`: row `y` holds
/// the palette rotated right by `y` color slots, so equal colors line up
/// on diagonals. Fails if and only if the palette's byte length is not
/// exactly `n * 4`, one 4-byte color per pixel of a row.
pub fn generate_pattern(palette: &Vec<u8>, n: usize) -> (r: Result<Vec<u8>, PatternError>)
    requires
        n * n * 4 <= usize::MAX,
    ensures
        match r {
            Ok(data) => palette@.len() == n * 4 && data@ == pattern_bytes(palette@, n as nat),
            Err(e) => palette@.len() != n * 4 && e == PatternError::SizeMismatch,
        },
{
    proof {
        if n >= 1 {
            assert(n * 4 <= n * n * 4) by (nonlinear_arith)
                requires
                    n >= 1,
            ;
        }
    }
    if palette.len() != n * 4 {
        return Err(PatternError::SizeMismatch);
    }
    let mut pal: Vec<u8> = copy_bytes(palette);
    let mut data: Vec<u8> = Vec::new();
    let mut y: usize = 0;
    while y < n
        invariant
            y <= n,
            n * n * 4 <= usize::MAX,
            palette@.len() == n * 4,
            pal@ == rotate_right_by(palette@, y as nat),
            pal@.len() == n * 4,
            data@ == pattern_rows(palette@, y as nat),
        decreases n - y,
    {
        let row_len = pal.len();
        let mut i: usize = 0;
        while i < row_len
            invariant
                i <= row_len,
                row_len == pal@.len(),
                data@ == pattern_rows(palette@, y as nat) + pal@.subrange(0, i as int),
            decreases row_len - i,
        {
            data.push(pal[i]);
            proof {
                assert(data@ =~= pattern_rows(palette@, y as nat) + pal@.subrange(0, i + 1));
            }
            i = i + 1;
        }
        proof {
            assert(pal@.subrange(0, pal@.len() as int) =~= pal@);
            assert(data@ == pattern_rows(palette@, (y + 1) as nat));
        }
        pal = rotated_palette(&pal);
        proof {
            lemma_rotate_right_by_len(palette@, y as nat);
        }
        y = y + 1;
    }
    Ok(data)
}

/// A square RGBA8 bitmap together with its dimensions: `data` holds the
/// pixels row-major, top to bottom, 4 bytes (R, G, B, A) per pixel, with
/// display-referred (sRGB) channel values.
pub struct Rgba8Texture {
    /// Width in pixels.
    pub width: u32,
    /// Height in pixels.
    pub height: u32,
    /// The pixel bytes, exactly `width * height * 4` of them.
    pub data: Vec<u8>,
}

impl Rgba8Texture {
    /// The buffer holds exactly `width * height` pixels of 4 bytes each.
    pub open spec fn wf(&self) -> bool {
        self.data@.len() == self.width * self.height * 4
    }
}

/// The side length of the debug texture, in pixels.
pub const TEXTURE_SIZE: usize = 8;

/// Builds the colorful debug texture: an 8-by-8 RGBA8 bitmap whose rows
/// cycle through the fixed palette, each row one color slot further than
/// the row above, so that equal colors form diagonal bands.
pub fn uv_debug_texture() -> (t: Rgba8Texture)
    ensures
        t.wf(),
        t.width == TEXTURE_SIZE && t.height == TEXTURE_SIZE,
        t.data@ == pattern_bytes(default_palette_spec(), TEXTURE_SIZE as nat),
{
    let palette = default_palette();
    let generated = generate_pattern(&palette, TEXTURE_SIZE);
    match generated {
        Ok(data) => {
            proof {
                lemma_pattern_bytes_len(default_palette_spec(), TEXTURE_SIZE as nat);
            }
            Rgba8Texture { width: 8, height: 8, data }
        },
        Err(_) => {
            proof {
                assert(false);
            }
            Rgba8Texture { width: 0, height: 0, data: Vec::new() }
        },
    }
}

} // verus!
