//! The QR-placement generator: the QR encoder (outside work) produces a
//! boolean module grid, and the verified placement walks the grid and adds
//! one marker entity per dark module, one tile apart.
use vstd::prelude::*;
use vstd::string::StringExecFns;

use crate::bp::builder::{BlueprintBuilder, BookBuilder, Coord, Entity};
use crate::codec::Render;
use crate::jsontext::{push_sep_joined, sep_joined, string_views};

verus! {

/// Why a QR layout could not be generated.
#[derive(Clone, Copy, Debug, PartialEq, Eq, Structural)]
pub enum QrError {
    /// The QR encoder rejected the text.
    Generation,
    /// The grid or the layout does not fit the coordinate or id range at the
    /// given offset.
    OutOfRange,
}

/// Declares qrcode_generator's error type so the trusted call can return
/// it; the library maps it to `QrError` without reading it.
#[verifier::external_type_specification]
#[verifier::external_body]
pub struct ExEncodeError(qrcode_generator::EncodeError);

/// What the QR encoder produces for this text at the High error-correction
/// level: the module grid as rows of booleans, `true` where a marker
/// belongs.
pub uninterp spec fn qr_matrix_of(text: Seq<char>) -> Seq<Seq<bool>>;

/// Whether the QR encoder accepts this text at the High error-correction
/// level: like the matrix itself, a function of the text alone.
pub uninterp spec fn qr_encodable(text: Seq<char>) -> bool;

/// Relies on qrcode_generator's Model 2 encoder at ErrorCorrection::High:
/// whether encoding succeeds, and the symbol and so its module matrix when
/// it does, are functions of the text alone.
#[verifier::external_body]
fn qr_matrix(text: &str) -> (r: Result<Vec<Vec<bool>>, qrcode_generator::EncodeError>)
    ensures
        r is Ok <==> qr_encodable(text@),
        r matches Ok(m) ==> grid_view(m@) == qr_matrix_of(text@),
{
    let encoder = qrcode_generator::qr::Encoder::new(qrcode_generator::qr::ErrorCorrection::High);
    match encoder.encode_text(text) {
        Ok(symbol) => Ok(symbol.to_matrix()),
        Err(e) => Err(e),
    }
}

/// The rows of a grid as sequences.
pub open spec fn grid_view(g: Seq<Vec<bool>>) -> Seq<Seq<bool>> {
    g.map_values(|row: Vec<bool>| row@)
}

/// How many of the first `upto` cells of a row are true.
pub open spec fn row_true_count(row: Seq<bool>, upto: int) -> int
    decreases upto,
{
    if upto <= 0 {
        0
    } else {
        row_true_count(row, upto - 1) + if row[upto - 1] {
            1int
        } else {
            0int
        }
    }
}

/// How many cells of the first `upto` full rows are true.
pub open spec fn grid_true_count(g: Seq<Seq<bool>>, upto: int) -> int
    decreases upto,
{
    if upto <= 0 {
        0
    } else {
        grid_true_count(g, upto - 1) + row_true_count(g[upto - 1], g[upto - 1].len() as int)
    }
}

/// The number of true cells strictly before cell (ix, iy) in row-major
/// order.
pub open spec fn cell_rank(g: Seq<Seq<bool>>, ix: int, iy: int) -> int {
    grid_true_count(g, ix) + row_true_count(g[ix], iy)
}

/// One grid marker: a stone wall at the given half-tile position with the
/// given id and no payload.
pub open spec fn marker_at(e: Entity, id: int, xh: int, yh: int) -> bool {
    &&& e.entity_number == id
    &&& e.name@ == "stone-wall"@
    &&& e.position.x.halves == xh
    &&& e.position.y.halves == yh
    &&& e.payload is Plain
}

/// The grid's markers occupy `entities[base..]`: one per true cell in
/// row-major order, ids continuing from `base + 1`, cells one whole tile
/// apart, the outer grid index running along x and the inner along y.
pub open spec fn grid_markers_ok(
    entities: Seq<Entity>,
    g: Seq<Seq<bool>>,
    xh: int,
    yh: int,
    base: int,
) -> bool {
    &&& entities.len() == base + grid_true_count(g, g.len() as int)
    &&& forall|ix: int, iy: int|
        0 <= ix < g.len() && 0 <= iy < g[ix].len() && g[ix][iy] ==> marker_at(
            #[trigger] entities[base + cell_rank(g, ix, iy)],
            base + cell_rank(g, ix, iy) + 1,
            xh + 2 * ix,
            yh + 2 * iy,
        )
}

/// Whether a grid's markers fit the layout at offset (xh, yh) half-tiles on
/// top of `base` existing entities: the bounds `add_qr_code` enforces before
/// placing anything. Every coordinate stays within the half-tile range, and
/// the ids cannot overflow.
pub open spec fn grid_fits(g: Seq<Seq<bool>>, xh: int, yh: int, base: int) -> bool {
    &&& g.len() <= 1000
    &&& xh + 2 * g.len() <= i32::MAX
    &&& forall|i: int|
        0 <= i < g.len() ==> (#[trigger] g[i]).len() <= 1000 && yh + 2 * g[i].len() <= i32::MAX
    &&& base <= usize::MAX - 1_000_000
}

proof fn lemma_row_count_mono(row: Seq<bool>, a: int, b: int)
    requires
        a <= b,
    ensures
        row_true_count(row, a) <= row_true_count(row, b),
    decreases b - a,
{
    if a < b {
        lemma_row_count_mono(row, a, b - 1);
    }
}

proof fn lemma_row_count_le(row: Seq<bool>, a: int)
    ensures
        row_true_count(row, a) <= if a <= 0 {
            0int
        } else {
            a
        },
    decreases a,
{
    if a > 0 {
        lemma_row_count_le(row, a - 1);
    }
}

proof fn lemma_grid_count_mono(g: Seq<Seq<bool>>, a: int, b: int)
    requires
        0 <= a <= b,
    ensures
        grid_true_count(g, a) <= grid_true_count(g, b),
    decreases b - a,
{
    if a < b {
        lemma_grid_count_mono(g, a, b - 1);
        lemma_row_count_mono(g[b - 1], 0, g[b - 1].len() as int);
    }
}

/// With every row at most 1000 cells wide, the first `upto` rows hold at
/// most `upto * 1000` true cells.
proof fn lemma_grid_count_cap(g: Seq<Seq<bool>>, upto: int)
    requires
        0 <= upto <= g.len(),
        forall|i: int| 0 <= i < g.len() ==> (#[trigger] g[i]).len() <= 1000,
    ensures
        grid_true_count(g, upto) <= upto * 1000,
    decreases upto,
{
    if upto > 0 {
        lemma_grid_count_cap(g, upto - 1);
        lemma_row_count_le(g[upto - 1], g[upto - 1].len() as int);
        lemma_row_count_mono(g[upto - 1], 0, g[upto - 1].len() as int);
    }
}

proof fn lemma_push_index<A>(s: Seq<A>, e: A, i: int)
    requires
        0 <= i < s.len(),
    ensures
        s.push(e)[i] == s[i],
{
}

/// A true cell in a row before `ix` ranks strictly below the count of the
/// first `ix` rows.
proof fn lemma_rank_row_lt(g: Seq<Seq<bool>>, jx: int, jy: int, ix: int)
    requires
        0 <= jx < ix <= g.len(),
        0 <= jy < g[jx].len(),
        g[jx][jy],
    ensures
        0 <= cell_rank(g, jx, jy),
        cell_rank(g, jx, jy) < grid_true_count(g, ix),
{
    lemma_grid_count_mono(g, 0, jx);
    lemma_row_count_mono(g[jx], 0, jy);
    assert(row_true_count(g[jx], jy + 1) == row_true_count(g[jx], jy) + 1);
    lemma_row_count_mono(g[jx], jy + 1, g[jx].len() as int);
    assert(grid_true_count(g, jx + 1) == grid_true_count(g, jx) + row_true_count(
        g[jx],
        g[jx].len() as int,
    ));
    lemma_grid_count_mono(g, jx + 1, ix);
}

/// A true cell's rank lies strictly below the grid's total count.
proof fn lemma_rank_bound(g: Seq<Seq<bool>>, ix: int, iy: int)
    requires
        0 <= ix < g.len(),
        0 <= iy < g[ix].len(),
        g[ix][iy],
    ensures
        0 <= cell_rank(g, ix, iy),
        cell_rank(g, ix, iy) + 1 <= grid_true_count(g, g.len() as int),
{
    lemma_grid_count_mono(g, 0, ix);
    lemma_row_count_mono(g[ix], 0, iy);
    assert(row_true_count(g[ix], iy + 1) == row_true_count(g[ix], iy) + 1);
    lemma_row_count_mono(g[ix], iy + 1, g[ix].len() as int);
    assert(grid_true_count(g, ix + 1) == grid_true_count(g, ix) + row_true_count(
        g[ix],
        g[ix].len() as int,
    ));
    lemma_grid_count_mono(g, ix + 1, g.len() as int);
}

impl BlueprintBuilder {
    /// Places one plain marker entity per true cell of `grid`, in row-major
    /// order, the cells one whole tile apart: cell (ix, iy) stands at
    /// (x + ix, y + iy) tiles.
    pub fn add_grid(&mut self, x: Coord, y: Coord, grid: &Vec<Vec<bool>>)
        requires
            old(self).entities@.len() + grid_true_count(
                grid_view(grid@),
                grid@.len() as int,
            ) <= usize::MAX,
            x.halves + 2 * grid@.len() <= i32::MAX,
            forall|i: int|
                0 <= i < grid@.len() ==> y.halves + 2 * (#[trigger] grid@[i])@.len() <= i32::MAX,
        ensures
            grid_markers_ok(
                final(self).entities@,
                grid_view(grid@),
                x.halves as int,
                y.halves as int,
                old(self).entities@.len() as int,
            ),
            forall|i: int|
                0 <= i < old(self).entities@.len() ==> final(self).entities@[i] == old(
                    self,
                ).entities@[i],
            final(self).icons == old(self).icons,
            final(self).schedules == old(self).schedules,
            old(self).same_heading(*final(self)),
            old(self).wf() ==> final(self).wf(),
    {
        let ghost g = grid_view(grid@);
        let ghost base = old(self).entities@.len() as int;
        let nx = grid.len();
        let mut ix: usize = 0;
        while ix < nx
            invariant
                ix <= nx,
                nx == g.len(),
                g == grid_view(grid@),
                base == old(self).entities@.len(),
                base + grid_true_count(g, g.len() as int) <= usize::MAX,
                x.halves + 2 * g.len() <= i32::MAX,
                forall|i: int|
                    0 <= i < g.len() ==> y.halves + 2 * (#[trigger] g[i]).len() <= i32::MAX,
                self.entities@.len() == base + grid_true_count(g, ix as int),
                forall|i: int| 0 <= i < base ==> self.entities@[i] == old(self).entities@[i],
                forall|jx: int, jy: int|
                    0 <= jx < ix && 0 <= jy < g[jx].len() && g[jx][jy] ==> marker_at(
                        #[trigger] self.entities@[base + cell_rank(g, jx, jy)],
                        base + cell_rank(g, jx, jy) + 1,
                        x.halves + 2 * jx,
                        y.halves + 2 * jy,
                    ),
                self.icons == old(self).icons,
                self.schedules == old(self).schedules,
                old(self).same_heading(*self),
                old(self).wf() ==> self.wf(),
            decreases nx - ix,
        {
            let row = &grid[ix];
            let ny = row.len();
            proof {
                assert(g[ix as int] == grid@[ix as int]@);
            }
            let mut iy: usize = 0;
            while iy < ny
                invariant
                    iy <= ny,
                    ix < nx,
                    nx == g.len(),
                    g == grid_view(grid@),
                    base == old(self).entities@.len(),
                    ny == g[ix as int].len(),
                    row@ == g[ix as int],
                    base + grid_true_count(g, g.len() as int) <= usize::MAX,
                    x.halves + 2 * g.len() <= i32::MAX,
                    forall|i: int|
                        0 <= i < g.len() ==> y.halves + 2 * (#[trigger] g[i]).len() <= i32::MAX,
                    self.entities@.len() == base + cell_rank(g, ix as int, iy as int),
                    forall|i: int| 0 <= i < base ==> self.entities@[i] == old(self).entities@[i],
                    forall|jx: int, jy: int|
                        0 <= jx < ix && 0 <= jy < g[jx].len() && g[jx][jy] ==> marker_at(
                            #[trigger] self.entities@[base + cell_rank(g, jx, jy)],
                            base + cell_rank(g, jx, jy) + 1,
                            x.halves + 2 * jx,
                            y.halves + 2 * jy,
                        ),
                    forall|jy: int|
                        0 <= jy < iy && g[ix as int][jy] ==> marker_at(
                            #[trigger] self.entities@[base + cell_rank(g, ix as int, jy)],
                            base + cell_rank(g, ix as int, jy) + 1,
                            x.halves + 2 * ix,
                            y.halves + 2 * jy,
                        ),
                    self.icons == old(self).icons,
                    self.schedules == old(self).schedules,
                    old(self).same_heading(*self),
                    old(self).wf() ==> self.wf(),
                decreases ny - iy,
            {
                if row[iy] {
                    proof {
                        lemma_rank_bound(g, ix as int, iy as int);
                        lemma_grid_count_mono(g, 0, ix as int);
                        lemma_row_count_mono(g[ix as int], 0, iy as int);
                    }
                    let cx = ((x.halves as i64) + 2 * (ix as i64)) as i32;
                    let cy = ((y.halves as i64) + 2 * (iy as i64)) as i32;
                    let ghost prev = *self;
                    let _ = self.add("stone-wall".to_owned(), Coord::from_halves(cx),
                        Coord::from_halves(cy));
                    proof {
                        assert(cx == x.halves + 2 * (ix as int));
                        assert(cy == y.halves + 2 * (iy as int));
                        assert forall|jx: int, jy: int|
                            0 <= jx < ix && 0 <= jy < g[jx].len() && g[jx][jy] implies marker_at(
                            #[trigger] self.entities@[base + cell_rank(g, jx, jy)],
                            base + cell_rank(g, jx, jy) + 1,
                            x.halves + 2 * jx,
                            y.halves + 2 * jy,
                        ) by {
                            lemma_rank_row_lt(g, jx, jy, ix as int);
                            lemma_row_count_mono(g[ix as int], 0, iy as int);
                            assert(base + cell_rank(g, jx, jy) < prev.entities@.len());
                            lemma_push_index(
                                prev.entities@,
                                self.entities@.last(),
                                base + cell_rank(g, jx, jy),
                            );
                            assert(self.entities@[base + cell_rank(g, jx, jy)] == prev.entities@[base
                                + cell_rank(g, jx, jy)]);
                        }
                        assert forall|jy: int|
                            0 <= jy < iy + 1 && g[ix as int][jy] implies marker_at(
                            #[trigger] self.entities@[base + cell_rank(g, ix as int, jy)],
                            base + cell_rank(g, ix as int, jy) + 1,
                            x.halves + 2 * ix,
                            y.halves + 2 * jy,
                        ) by {
                            if jy < iy {
                                assert(row_true_count(g[ix as int], jy + 1) == row_true_count(
                                    g[ix as int],
                                    jy,
                                ) + 1);
                                lemma_row_count_mono(g[ix as int], jy + 1, iy as int);
                                lemma_row_count_mono(g[ix as int], 0, jy);
                                lemma_grid_count_mono(g, 0, ix as int);
                                assert(base + cell_rank(g, ix as int, jy) < prev.entities@.len());
                                lemma_push_index(
                                    prev.entities@,
                                    self.entities@.last(),
                                    base + cell_rank(g, ix as int, jy),
                                );
                                assert(self.entities@[base + cell_rank(g, ix as int, jy)]
                                    == prev.entities@[base + cell_rank(g, ix as int, jy)]);
                            } else {
                                assert(self.entities@[base + cell_rank(g, ix as int, jy)]
                                    == self.entities@.last());
                            }
                        }
                        assert(row_true_count(g[ix as int], iy + 1) == row_true_count(
                            g[ix as int],
                            iy as int,
                        ) + 1);
                    }
                } else {
                    proof {
                        assert(row_true_count(g[ix as int], iy + 1) == row_true_count(
                            g[ix as int],
                            iy as int,
                        ));
                    }
                }
                iy += 1;
            }
            proof {
                assert(grid_true_count(g, ix + 1) == grid_true_count(g, ix as int)
                    + row_true_count(g[ix as int], g[ix as int].len() as int));
                assert forall|jx: int, jy: int|
                    0 <= jx < ix + 1 && 0 <= jy < g[jx].len() && g[jx][jy] implies marker_at(
                    #[trigger] self.entities@[base + cell_rank(g, jx, jy)],
                    base + cell_rank(g, jx, jy) + 1,
                    x.halves + 2 * jx,
                    y.halves + 2 * jy,
                ) by {
                    if jx < ix {
                    } else {
                        assert(jx == ix);
                    }
                }
            }
            ix += 1;
        }
    }

    /// Generates the QR module grid for `val` at the High error-correction
    /// level and places one marker per dark module from (x, y) on. Succeeds
    /// exactly when the encoder accepts the text and the grid fits at the
    /// offset; on any failure the layout is unchanged.
    pub fn add_qr_code(&mut self, x: Coord, y: Coord, val: &str) -> (r: Result<(), QrError>)
        ensures
            r is Ok <==> qr_encodable(val@) && grid_fits(
                qr_matrix_of(val@),
                x.halves as int,
                y.halves as int,
                old(self).entities@.len() as int,
            ),
            r == Err::<(), QrError>(QrError::Generation) <==> !qr_encodable(val@),
            r == Err::<(), QrError>(QrError::OutOfRange) <==> qr_encodable(val@) && !grid_fits(
                qr_matrix_of(val@),
                x.halves as int,
                y.halves as int,
                old(self).entities@.len() as int,
            ),
            r is Ok ==> ({
                let g = qr_matrix_of(val@);
                &&& grid_markers_ok(
                    final(self).entities@,
                    g,
                    x.halves as int,
                    y.halves as int,
                    old(self).entities@.len() as int,
                )
                &&& forall|i: int|
                    0 <= i < old(self).entities@.len() ==> final(self).entities@[i] == old(
                        self,
                    ).entities@[i]
            }),
            r is Err ==> *final(self) == *old(self),
            final(self).icons == old(self).icons,
            final(self).schedules == old(self).schedules,
            old(self).same_heading(*final(self)),
            old(self).wf() ==> final(self).wf(),
    {
        let grid = match qr_matrix(val) {
            Ok(m) => m,
            Err(_) => {
                return Err(QrError::Generation);
            },
        };
        let ghost g = grid_view(grid@);
        let nx = grid.len();
        if nx > 1000 {
            return Err(QrError::OutOfRange);
        }
        if x.halves > i32::MAX - 2 * (nx as i32) {
            return Err(QrError::OutOfRange);
        }
        let mut i: usize = 0;
        while i < nx
            invariant
                i <= nx,
                nx == grid@.len(),
                g == grid_view(grid@),
                g == qr_matrix_of(val@),
                qr_encodable(val@),
                g.len() <= 1000,
                x.halves + 2 * g.len() <= i32::MAX,
                *self == *old(self),
                forall|j: int|
                    0 <= j < i ==> (#[trigger] g[j]).len() <= 1000 && y.halves + 2 * g[j].len()
                        <= i32::MAX,
            decreases nx - i,
        {
            let ny = grid[i].len();
            if ny > 1000 {
                proof {
                    assert(g[i as int] == grid@[i as int]@);
                    assert(g[i as int].len() > 1000);
                }
                return Err(QrError::OutOfRange);
            }
            if y.halves > i32::MAX - 2 * (ny as i32) {
                proof {
                    assert(g[i as int] == grid@[i as int]@);
                    assert(y.halves + 2 * g[i as int].len() > i32::MAX);
                }
                return Err(QrError::OutOfRange);
            }
            proof {
                assert(g[i as int] == grid@[i as int]@);
            }
            i += 1;
        }
        if self.entities.len() > usize::MAX - 1_000_000 {
            return Err(QrError::OutOfRange);
        }
        proof {
            lemma_grid_count_cap(g, g.len() as int);
            assert(grid_true_count(g, g.len() as int) <= 1_000_000);
            assert forall|j: int|
                0 <= j < grid@.len() implies y.halves + 2 * (#[trigger] grid@[j])@.len()
                <= i32::MAX by {
                assert(g[j] == grid@[j]@);
            }
            assert(grid_fits(
                g,
                x.halves as int,
                y.halves as int,
                old(self).entities@.len() as int,
            ));
        }
        self.add_grid(x, y, &grid);
        Ok(())
    }
}

pub open spec fn qr_bp_description(u: Seq<char>) -> Seq<char> {
    "QR code made from [item=stone-wall] that links to "@ + u
}

pub open spec fn qr_book_description(names: Seq<Seq<char>>) -> Seq<char> {
    "QR codes for the following URLs: \n\n - "@ + sep_joined(names, "\n - "@) + "\n"@
}

/// The complete QR blueprint for a URL: the URL as the label, four
/// stone-wall icons, one marker per dark module of the URL's QR grid placed
/// from the origin, and no schedules.
pub open spec fn is_qr_bp(bp: BlueprintBuilder, u: Seq<char>) -> bool {
    &&& bp.wf()
    &&& bp.label@ == u
    &&& bp.description@ == qr_bp_description(u)
    &&& bp.icons@.len() == 4
    &&& forall|i: int| 0 <= i < 4 ==> (#[trigger] bp.icons@[i]).name@ == "stone-wall"@
    &&& grid_markers_ok(bp.entities@, qr_matrix_of(u), 0, 0, 0)
    &&& bp.schedules@.len() == 0
}

/// The QR book for a list of URLs: one QR blueprint per URL, in order,
/// under the book label, a description listing every URL, and four
/// stone-wall icons.
pub open spec fn is_qr_book(bk: BookBuilder, urls: Seq<String>) -> bool {
    &&& bk.wf()
    &&& bk.label@ == "QR codes book"@
    &&& bk.description@ == qr_book_description(string_views(urls))
    &&& bk.icons@.len() == 4
    &&& forall|i: int| 0 <= i < 4 ==> (#[trigger] bk.icons@[i]).name@ == "stone-wall"@
    &&& bk.blueprints@.len() == urls.len()
    &&& forall|i: int| 0 <= i < urls.len() ==> is_qr_bp(#[trigger] bk.blueprints@[i], urls[i]@)
}

/// Builds the QR blueprint for one URL. Succeeds exactly when the encoder
/// accepts the URL and its grid fits at the origin.
fn qr_bp_for_url(url: &String) -> (r: Result<BlueprintBuilder, QrError>)
    ensures
        r is Ok <==> qr_encodable(url@) && grid_fits(qr_matrix_of(url@), 0, 0, 0),
        r matches Ok(bp) ==> is_qr_bp(bp, url@),
        r == Err::<BlueprintBuilder, QrError>(QrError::Generation) <==> !qr_encodable(url@),
{
    let mut description = "QR code made from [item=stone-wall] that links to ".to_owned();
    description.append(url.as_str());
    let mut b = BlueprintBuilder::new(url.as_str(), description.as_str());
    match b.add_qr_code(Coord::from_halves(0), Coord::from_halves(0), url.as_str()) {
        Ok(()) => {},
        Err(e) => {
            return Err(e);
        },
    }
    b.add_icon("stone-wall".to_owned());
    b.add_icon("stone-wall".to_owned());
    b.add_icon("stone-wall".to_owned());
    b.add_icon("stone-wall".to_owned());
    Ok(b)
}

/// The encoded output for a list of URLs: one URL gives a single QR
/// blueprint's string, several give the book's. Succeeds exactly when the
/// encoder accepts every URL and each grid fits at the origin.
pub fn qr_output(urls: &Vec<String>) -> (r: Result<String, QrError>)
    requires
        urls@.len() >= 1,
    ensures
        urls@.len() == 1 ==> (r is Ok <==> qr_encodable(urls@[0]@) && grid_fits(
            qr_matrix_of(urls@[0]@),
            0,
            0,
            0,
        )),
        urls@.len() > 1 ==> (r is Ok <==> (forall|i: int|
            0 <= i < urls@.len() ==> qr_encodable(#[trigger] urls@[i]@) && grid_fits(
                qr_matrix_of(urls@[i]@),
                0,
                0,
                0,
            ))),
        urls@.len() == 1 ==> (r matches Ok(s) ==> exists|bp: BlueprintBuilder|
            is_qr_bp(bp, urls@[0]@) && s@ == #[trigger] bp.rendered()),
        urls@.len() > 1 ==> (r matches Ok(s) ==> exists|bk: BookBuilder|
            is_qr_book(bk, urls@) && s@ == #[trigger] bk.rendered()),
{
    if urls.len() == 1 {
        let bp = match qr_bp_for_url(&urls[0]) {
            Ok(b) => b,
            Err(e) => {
                return Err(e);
            },
        };
        let out = bp.render();
        proof {
            assert(is_qr_bp(bp, urls@[0]@) && out@ == bp.rendered());
        }
        Ok(out)
    } else {
        let mut description = "QR codes for the following URLs: \n\n - ".to_owned();
        push_sep_joined(&mut description, urls, "\n - ");
        description.append("\n");
        let mut book = BookBuilder::new("QR codes book", description.as_str());
        book.add_icon("stone-wall".to_owned());
        book.add_icon("stone-wall".to_owned());
        book.add_icon("stone-wall".to_owned());
        book.add_icon("stone-wall".to_owned());
        let n = urls.len();
        let mut i: usize = 0;
        while i < n
            invariant
                i <= n,
                n == urls@.len(),
                book.wf(),
                book.label@ == "QR codes book"@,
                book.description@ == qr_book_description(string_views(urls@)),
                book.icons@.len() == 4,
                forall|j: int| 0 <= j < 4 ==> (#[trigger] book.icons@[j]).name@ == "stone-wall"@,
                book.blueprints@.len() == i,
                forall|j: int|
                    0 <= j < i ==> is_qr_bp(#[trigger] book.blueprints@[j], urls@[j]@),
                forall|j: int|
                    0 <= j < i ==> qr_encodable(#[trigger] urls@[j]@) && grid_fits(
                        qr_matrix_of(urls@[j]@),
                        0,
                        0,
                        0,
                    ),
            decreases n - i,
        {
            let bpi = match qr_bp_for_url(&urls[i]) {
                Ok(b) => b,
                Err(e) => {
                    proof {
                        assert(!(qr_encodable(urls@[i as int]@) && grid_fits(
                            qr_matrix_of(urls@[i as int]@),
                            0,
                            0,
                            0,
                        )));
                    }
                    return Err(e);
                },
            };
            let ghost prev = book;
            book.add_blueprint(bpi);
            proof {
                assert forall|j: int| 0 <= j < i + 1 implies is_qr_bp(
                    #[trigger] book.blueprints@[j],
                    urls@[j]@,
                ) by {
                    if j < i {
                        assert(book.blueprints@[j] == prev.blueprints@[j]);
                    } else {
                        assert(book.blueprints@[j] == book.blueprints@.last());
                    }
                }
            }
            i += 1;
        }
        let out = book.render();
        proof {
            assert(is_qr_book(book, urls@) && out@ == book.rendered());
        }
        Ok(out)
    }
}

} // verus!
