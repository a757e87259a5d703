use crate::bit_image::{bit_index, bit_set, byte_index, lemma_index_injective, lemma_or_bit, lemma_zero_has_no_bits};
use crate::bit_image::ModuleColor;
use crate::qr::{qr_text_of, rendered_char, QrMatrix, TEXT_DARK_CHAR, TEXT_MODULE_SIZE};
use vstd::arithmetic::div_mod::{
    lemma_fundamental_div_mod, lemma_fundamental_div_mod_converse_div,
    lemma_fundamental_div_mod_converse_mod,
};
use vstd::prelude::*;

verus! {

/// Side, in pixels, of the bitmap that a text rendering is read into.
pub const TEXT_BITMAP_SIDE: usize = 32;

/// Bytes of that bitmap: 32 rows of four bytes.
pub const TEXT_BITMAP_BYTES: usize = 128;

/// Line and column that the character after `s` stands at: lines are
/// separated by '\n', both counted from zero.
pub open spec fn text_position(s: Seq<char>) -> (int, int)
    decreases s.len(),
{
    if s.len() == 0 {
        (0, 0)
    } else {
        let (line, col) = text_position(s.drop_last());
        if s.last() == '\n' {
            (line + 1, 0)
        } else {
            (line, col + 1)
        }
    }
}

/// Whether one of the first `n` characters of `s` is a '.' in column `x` of
/// line `y`.
pub open spec fn dot_before(s: Seq<char>, n: int, x: int, y: int) -> bool {
    exists|k: int| 0 <= k < n && s[k] == '.' && #[trigger] text_position(s.take(k)) == (y, x)
}

/// Whether the text holds a '.' in column `x` of line `y`.
pub open spec fn dot_at(s: Seq<char>, x: int, y: int) -> bool {
    dot_before(s, s.len() as int, x, y)
}

/// Whether pixel `(x, y)` of a 32 by 32 bitmap is set.
pub open spec fn bitmap_pixel(buf: Seq<u8>, x: int, y: int) -> bool {
    bit_set(buf[byte_index(TEXT_BITMAP_SIDE as int, x, y)], bit_index(x))
}

/// Reads the top-left 32 by 32 characters of a text rendering into a bitmap
/// of 32 rows of four bytes, most significant bit first: the bit of column
/// `x` of line `y` is set exactly when that character is a '.'. A '\r' before
/// a line break is an ordinary non-dot character here, as it is never a dot.
pub fn qr_text_bitmap(qr_str: &str) -> (buf: [u8; 128])
    ensures
        forall|x: int, y: int|
            0 <= x < TEXT_BITMAP_SIDE && 0 <= y < TEXT_BITMAP_SIDE ==> #[trigger] bitmap_pixel(buf@, x, y)
                == dot_at(qr_str@, x, y),
{
    broadcast use vstd::string::group_string_axioms;

    let mut buf = [0u8; 128];
    let mut line: usize = 0;
    let mut col: usize = 0;
    let ghost s = qr_str@;
    proof {
        assert forall|x: int, y: int|
            0 <= x < TEXT_BITMAP_SIDE && 0 <= y < TEXT_BITMAP_SIDE implies #[trigger] bitmap_pixel(
                buf@,
                x,
                y,
            ) == dot_before(s, 0, x, y) by {
            assert(0 <= byte_index(32, x, y) < 128);
            assert(buf@[byte_index(32, x, y)] == 0u8);
            lemma_zero_has_no_bits(bit_index(x));
        }
    }
    for c in iter: qr_str.chars()
        invariant
            iter.seq() == s,
            0 <= iter.index() <= s.len(),
            line <= 32,
            col <= 32,
            line as int == if text_position(s.take(iter.index())).0 < 32 {
                text_position(s.take(iter.index())).0
            } else {
                32
            },
            col as int == if text_position(s.take(iter.index())).1 < 32 {
                text_position(s.take(iter.index())).1
            } else {
                32
            },
            buf@.len() == 128,
            forall|x: int, y: int|
                0 <= x < TEXT_BITMAP_SIDE && 0 <= y < TEXT_BITMAP_SIDE ==> #[trigger] bitmap_pixel(
                    buf@,
                    x,
                    y,
                ) == dot_before(s, iter.index(), x, y),
    {
        let ghost k = iter.index();
        let ghost old_buf = buf@;
        let ghost pos = text_position(s.take(k));
        proof {
            assert(s[k] == c);
            assert(s.take(k + 1).drop_last() =~= s.take(k));
            assert(s.take(k + 1).last() == c);
        }
        if c == '\n' {
            if line < 32 {
                line += 1;
            }
            col = 0;
        } else {
            if c == '.' && line < 32 && col < 32 {
                let index = line * 4 + col / 8;
                let shift: u32 = (7 - col % 8) as u32;
                let mask: u8 = 1u8 << shift;
                let old_byte = buf[index];
                buf[index] = old_byte | mask;
                proof {
                    assert(index == byte_index(32, col as int, line as int));
                    assert(shift == bit_index(col as int));
                }
            }
            if col < 32 {
                col += 1;
            }
        }
        proof {
            assert forall|x: int, y: int|
                0 <= x < TEXT_BITMAP_SIDE && 0 <= y < TEXT_BITMAP_SIDE implies #[trigger] bitmap_pixel(
                    buf@,
                    x,
                    y,
                ) == dot_before(s, k + 1, x, y) by {
                assert(bitmap_pixel(old_buf, x, y) == dot_before(s, k, x, y));
                let hit = s[k] == '.' && pos == (y, x);
                if hit {
                    assert(dot_before(s, k + 1, x, y));
                } else {
                    if dot_before(s, k + 1, x, y) {
                        let w = choose|j: int|
                            0 <= j < k + 1 && s[j] == '.' && #[trigger] text_position(s.take(j)) == (
                                y,
                                x,
                            );
                        assert(w != k);
                        assert(dot_before(s, k, x, y));
                    }
                    if dot_before(s, k, x, y) {
                        let w = choose|j: int|
                            0 <= j < k && s[j] == '.' && #[trigger] text_position(s.take(j)) == (y, x);
                        assert(dot_before(s, k + 1, x, y));
                    }
                }
                if c != '\n' && c == '.' && pos.0 < 32 && pos.1 < 32 {
                    let bi = byte_index(32, pos.1, pos.0);
                    lemma_or_bit(old_buf[bi], bit_index(pos.1), bit_index(x));
                    if byte_index(32, x, y) == bi {
                        lemma_index_injective(32, x, y, pos.1, pos.0);
                    }
                    assert(buf@ == old_buf.update(bi, old_buf[bi] | (1u8 << bit_index(pos.1))));
                } else {
                    assert(buf@ == old_buf);
                }
            }
        }
    }
    proof {
        assert(s.take(s.len() as int) =~= s);
    }
    buf
}

proof fn lemma_div_mod_step(j: int, d: int)
    requires
        0 <= j,
        1 <= d,
    ensures
        j % d == d - 1 ==> (j + 1) / d == j / d + 1 && (j + 1) % d == 0,
        j % d != d - 1 ==> (j + 1) / d == j / d && (j + 1) % d == j % d + 1,
{
    let q = j / d;
    let r = j % d;
    lemma_fundamental_div_mod(j, d);
    assert(d * q == q * d) by (nonlinear_arith);
    if r == d - 1 {
        assert(j + 1 == (q + 1) * d + 0) by (nonlinear_arith)
            requires
                j == q * d + r,
                r == d - 1,
        ;
        lemma_fundamental_div_mod_converse_div(j + 1, d, q + 1, 0);
        lemma_fundamental_div_mod_converse_mod(j + 1, d, q + 1, 0);
    } else {
        assert(j + 1 == q * d + (r + 1));
        lemma_fundamental_div_mod_converse_div(j + 1, d, q, r + 1);
        lemma_fundamental_div_mod_converse_mod(j + 1, d, q, r + 1);
    }
}

/// In a text whose line breaks stand exactly at the positions `n`, `2n + 1`,
/// ... (lines of `n` characters), character `k` is in line `k / (n + 1)`,
/// column `k % (n + 1)`.
proof fn lemma_grid_positions(t: Seq<char>, n: int, k: int)
    requires
        1 <= n,
        0 <= k <= t.len(),
        forall|j: int| 0 <= j < t.len() ==> (#[trigger] t[j] == '\n') == (j % (n + 1) == n),
    ensures
        text_position(t.take(k)) == (k / (n + 1), k % (n + 1)),
    decreases k,
{
    if k == 0 {
        assert(t.take(0).len() == 0);
        lemma_fundamental_div_mod_converse_div(0, n + 1, 0, 0);
        lemma_fundamental_div_mod_converse_mod(0, n + 1, 0, 0);
    } else {
        lemma_grid_positions(t, n, k - 1);
        assert(t.take(k).drop_last() =~= t.take(k - 1));
        assert(t.take(k).last() == t[k - 1]);
        lemma_div_mod_step(k - 1, n + 1);
    }
}

/// Reading the text rendering of a symbol back into a bitmap recovers the
/// symbol: the pixel in column `x` of line `y` is set exactly when the
/// module under it (each module being two characters wide and two lines
/// high) is dark. The rendering of any symbol is wider and taller than the
/// 32 by 32 pixels read.
pub proof fn lemma_rendered_symbol_reads_back(m: QrMatrix, x: int, y: int)
    requires
        m.wf(),
        0 <= x < TEXT_BITMAP_SIDE,
        0 <= y < TEXT_BITMAP_SIDE,
    ensures
        dot_at(qr_text_of(m), x, y) == (m.module_seq()[(y / 2) * m.side() + x / 2]
            == ModuleColor::Dark),
{
    let t = qr_text_of(m);
    m.lemma_shape();
    let w = m.side() as int;
    let n = w * 2;
    let rows = w * 2;
    assert(((w + 2 * 0nat) * TEXT_MODULE_SIZE) as int == n);
    let line_len = ((m.side() + 2 * 0nat) * (TEXT_MODULE_SIZE as nat)) as int;
    assert(line_len == n);
    assert(t.len() == (line_len * (line_len + 1) - 1) as nat);
    assert(line_len * (line_len + 1) - 1 == rows * (n + 1) - 1);
    assert(line_len * (line_len + 1) >= 1) by (nonlinear_arith)
        requires
            line_len >= 1,
    ;
    assert(t.len() == rows * (n + 1) - 1);
    assert forall|j: int| 0 <= j < t.len() implies (#[trigger] t[j] == '\n') == (j % (n + 1)
        == n) by {
        assert(t[j] == rendered_char(m.module_seq(), m.side(), TEXT_DARK_CHAR, 0, 2, 2, j));
    }
    if dot_at(t, x, y) {
        let k = choose|k: int|
            0 <= k < t.len() && t[k] == '.' && #[trigger] text_position(t.take(k)) == (y, x);
        lemma_grid_positions(t, n, k);
        assert(t[k] == rendered_char(m.module_seq(), m.side(), TEXT_DARK_CHAR, 0, 2, 2, k));
    }
    assert(0 <= (y / 2) * w + x / 2 < w * w) by (nonlinear_arith)
        requires
            0 <= x < 32,
            0 <= y < 32,
            21 <= w,
    ;
    if m.module_seq()[(y / 2) * w + x / 2] == ModuleColor::Dark {
        let k = y * (n + 1) + x;
        assert(k < rows * (n + 1) - 1) by (nonlinear_arith)
            requires
                k == y * (n + 1) + x,
                0 <= x < 32,
                0 <= y < 32,
                rows == n,
                n >= 42,
        ;
        lemma_fundamental_div_mod_converse_div(k, n + 1, y, x);
        lemma_fundamental_div_mod_converse_mod(k, n + 1, y, x);
        lemma_grid_positions(t, n, k);
        assert(t[k] == rendered_char(m.module_seq(), m.side(), TEXT_DARK_CHAR, 0, 2, 2, k));
        assert(t[k] == '.');
        assert(dot_at(t, x, y));
    }
}

} // verus!
