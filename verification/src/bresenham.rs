//! The point set of an integer Bresenham line trace.
//!
//! The algorithm walks from `(x0, y0)` to `(x1, y1)` carrying an error
//! term. Here its state is kept as the remaining distances `(p, q)`:
//! `p` columns and `q` rows short of the far endpoint, counting down
//! from `(a, b)` — the absolute column and row spans — to `(0, 0)`.
//! The error term is a function of the remaining distances alone, so
//! the visited points form a well-founded recursion over `p + q`.

use vstd::prelude::*;
use vstd::math::abs;

verus! {

/// The error term the trace carries when `p` columns and `q` rows
/// remain of a span of `a` columns and `b` rows. At the start
/// (`p == a`, `q == b`) it is `a - b`; stepping one column subtracts
/// `b`, stepping one row adds `a`.
pub open spec fn bres_err(a: int, b: int, p: int, q: int) -> int {
    a - b + b * p - a * q
}

/// How the step conditions move the remaining distances and the error
/// term: one linearity fact per kind of step.
pub proof fn lemma_bres_err_step(a: int, b: int, p: int, q: int)
    by (nonlinear_arith)
    ensures
        bres_err(a, b, p - 1, q) == bres_err(a, b, p, q) - b,
        bres_err(a, b, p, q - 1) == bres_err(a, b, p, q) + a,
        bres_err(a, b, p - 1, q - 1) == bres_err(a, b, p, q) - b + a,
{
}

/// The trace never overshoots an axis it has finished: once no columns
/// remain the column-step test fails, and once no rows remain the
/// row-step test fails.
pub proof fn lemma_bres_no_overshoot(a: int, b: int, p: int, q: int)
    by (nonlinear_arith)
    requires
        0 <= p <= a,
        0 <= q <= b,
        !(p == 0 && q == 0),
    ensures
        p == 0 ==> 2 * bres_err(a, b, p, q) < -b,
        q == 0 ==> 2 * bres_err(a, b, p, q) > a,
{
}

/// The points still visited from the state `p` columns and `q` rows
/// short of `(x1, y1)` (the current point included), where `sx` and
/// `sy` are the unit steps toward the far endpoint.
pub open spec fn bres_rem_pts(
    x1: int,
    y1: int,
    sx: int,
    sy: int,
    a: int,
    b: int,
    p: int,
    q: int,
) -> Set<(int, int)>
    decreases p + q,
        when 0 <= p <= a && 0 <= q <= b
{
    let pt = (x1 - sx * p, y1 - sy * q);
    if p == 0 && q == 0 {
        Set::empty().insert(pt)
    } else {
        let e2 = 2 * bres_err(a, b, p, q);
        let p2 = if e2 >= -b {
            p - 1
        } else {
            p
        };
        let q2 = if e2 <= a {
            q - 1
        } else {
            q
        };
        proof {
            lemma_bres_no_overshoot(a, b, p, q);
        }
        bres_rem_pts(x1, y1, sx, sy, a, b, p2, q2).insert(pt)
    }
}

/// On a horizontal segment the trace steps one column per iteration:
/// what remains is exactly the run of `p + 1` columns ending at `x1`.
proof fn lemma_bres_horiz(x1: int, y1: int, sx: int, sy: int, a: int, p: int)
    requires
        sx == 1 || sx == -1,
        0 <= p <= a,
    ensures
        bres_rem_pts(x1, y1, sx, sy, a, 0, p, 0) == Set::new(
            |pt: (int, int)| pt.1 == y1 && 0 <= (x1 - pt.0) * sx <= p,
        ),
    decreases p,
{
    let s = bres_rem_pts(x1, y1, sx, sy, a, 0, p, 0);
    let seg = Set::new(|pt: (int, int)| pt.1 == y1 && 0 <= (x1 - pt.0) * sx <= p);
    if p == 0 {
        assert(s == Set::empty().insert((x1 - sx * 0, y1 - sy * 0)));
        assert forall|pt: (int, int)| seg.contains(pt) implies s.contains(pt) by {
            if sx == 1 {
                assert(pt == (x1, y1));
            } else {
                assert(pt == (x1, y1));
            }
        }
        assert(s =~= seg);
    } else {
        assert(bres_err(a, 0, p, 0) == a);
        assert(s == bres_rem_pts(x1, y1, sx, sy, a, 0, p - 1, 0).insert((x1 - sx * p, y1 - sy * 0)));
        lemma_bres_horiz(x1, y1, sx, sy, a, p - 1);
        let prev = Set::new(|pt: (int, int)| pt.1 == y1 && 0 <= (x1 - pt.0) * sx <= p - 1);
        assert forall|pt: (int, int)| #[trigger] seg.contains(pt) implies prev.insert(
            (x1 - sx * p, y1),
        ).contains(pt) by {
            if sx == 1 {
                if (x1 - pt.0) * sx == p {
                    assert(pt == (x1 - sx * p, y1));
                }
            } else {
                if (x1 - pt.0) * sx == p {
                    assert(pt == (x1 - sx * p, y1));
                }
            }
        }
        assert forall|pt: (int, int)| prev.insert((x1 - sx * p, y1)).contains(pt) implies seg.contains(pt) by {
            if pt == (x1 - sx * p, y1) {
                if sx == 1 {
                    assert((x1 - pt.0) * sx == p);
                } else {
                    assert((x1 - pt.0) * sx == p);
                }
            }
        }
        assert(s =~= seg);
    }
}

/// On a vertical segment the trace steps one row per iteration.
proof fn lemma_bres_vert(x1: int, y1: int, sx: int, sy: int, b: int, q: int)
    requires
        sy == 1 || sy == -1,
        0 <= q <= b,
    ensures
        bres_rem_pts(x1, y1, sx, sy, 0, b, 0, q) == Set::new(
            |pt: (int, int)| pt.0 == x1 && 0 <= (y1 - pt.1) * sy <= q,
        ),
    decreases q,
{
    let s = bres_rem_pts(x1, y1, sx, sy, 0, b, 0, q);
    let seg = Set::new(|pt: (int, int)| pt.0 == x1 && 0 <= (y1 - pt.1) * sy <= q);
    if q == 0 {
        assert(s == Set::empty().insert((x1 - sx * 0, y1 - sy * 0)));
        assert forall|pt: (int, int)| seg.contains(pt) implies s.contains(pt) by {
            if sy == 1 {
                assert(pt == (x1, y1));
            } else {
                assert(pt == (x1, y1));
            }
        }
        assert(s =~= seg);
    } else {
        assert(bres_err(0, b, 0, q) == -b);
        assert(s == bres_rem_pts(x1, y1, sx, sy, 0, b, 0, q - 1).insert((x1 - sx * 0, y1 - sy * q)));
        lemma_bres_vert(x1, y1, sx, sy, b, q - 1);
        let prev = Set::new(|pt: (int, int)| pt.0 == x1 && 0 <= (y1 - pt.1) * sy <= q - 1);
        assert forall|pt: (int, int)| #[trigger] seg.contains(pt) implies prev.insert(
            (x1, y1 - sy * q),
        ).contains(pt) by {
            if sy == 1 {
                if (y1 - pt.1) * sy == q {
                    assert(pt == (x1, y1 - sy * q));
                }
            } else {
                if (y1 - pt.1) * sy == q {
                    assert(pt == (x1, y1 - sy * q));
                }
            }
        }
        assert forall|pt: (int, int)| prev.insert((x1, y1 - sy * q)).contains(pt) implies seg.contains(pt) by {
            if pt == (x1, y1 - sy * q) {
                if sy == 1 {
                    assert((y1 - pt.1) * sy == q);
                } else {
                    assert((y1 - pt.1) * sy == q);
                }
            }
        }
        assert(s =~= seg);
    }
}

/// On an exact diagonal the trace steps one column and one row per
/// iteration.
proof fn lemma_bres_diag(x1: int, y1: int, sx: int, sy: int, a: int, p: int)
    requires
        sx == 1 || sx == -1,
        sy == 1 || sy == -1,
        0 <= p <= a,
    ensures
        bres_rem_pts(x1, y1, sx, sy, a, a, p, p) == Set::new(
            |pt: (int, int)|
                0 <= (x1 - pt.0) * sx <= p && (y1 - pt.1) * sy == (x1 - pt.0) * sx,
        ),
    decreases p,
{
    let s = bres_rem_pts(x1, y1, sx, sy, a, a, p, p);
    let seg = Set::new(
        |pt: (int, int)| 0 <= (x1 - pt.0) * sx <= p && (y1 - pt.1) * sy == (x1 - pt.0) * sx,
    );
    if p == 0 {
        assert(s == Set::empty().insert((x1 - sx * 0, y1 - sy * 0)));
        assert forall|pt: (int, int)| seg.contains(pt) implies s.contains(pt) by {
            if sx == 1 {
                assert(pt.0 == x1);
            } else {
                assert(pt.0 == x1);
            }
            if sy == 1 {
                assert(pt.1 == y1);
            } else {
                assert(pt.1 == y1);
            }
            assert(pt == (x1, y1));
        }
        assert(s =~= seg);
    } else {
        assert(bres_err(a, a, p, p) == 0);
        assert(s == bres_rem_pts(x1, y1, sx, sy, a, a, p - 1, p - 1).insert(
            (x1 - sx * p, y1 - sy * p),
        ));
        lemma_bres_diag(x1, y1, sx, sy, a, p - 1);
        let prev = Set::new(
            |pt: (int, int)|
                0 <= (x1 - pt.0) * sx <= p - 1 && (y1 - pt.1) * sy == (x1 - pt.0) * sx,
        );
        assert forall|pt: (int, int)| #[trigger] seg.contains(pt) implies prev.insert(
            (x1 - sx * p, y1 - sy * p),
        ).contains(pt) by {
            if (x1 - pt.0) * sx == p {
                if sx == 1 {
                    assert(pt.0 == x1 - sx * p);
                } else {
                    assert(pt.0 == x1 - sx * p);
                }
                if sy == 1 {
                    assert(pt.1 == y1 - sy * p);
                } else {
                    assert(pt.1 == y1 - sy * p);
                }
            }
        }
        assert forall|pt: (int, int)| prev.insert((x1 - sx * p, y1 - sy * p)).contains(
            pt,
        ) implies seg.contains(pt) by {
            if pt == (x1 - sx * p, y1 - sy * p) {
                if sx == 1 {
                    assert((x1 - pt.0) * sx == p);
                } else {
                    assert((x1 - pt.0) * sx == p);
                }
                if sy == 1 {
                    assert((y1 - pt.1) * sy == p);
                } else {
                    assert((y1 - pt.1) * sy == p);
                }
            }
        }
        assert(s =~= seg);
    }
}

/// Tracing a horizontal, vertical or exact-diagonal segment from
/// either endpoint visits the same set of points. (A segment that is
/// neither axis-aligned nor an exact diagonal may break error-term
/// ties differently in the two directions, so no more is claimed.)
pub proof fn lemma_line_pts_symmetric(x0: int, y0: int, x1: int, y1: int)
    requires
        x0 == x1 || y0 == y1 || abs(x1 - x0) == abs(y1 - y0),
    ensures
        line_pts(x0, y0, x1, y1) == line_pts(x1, y1, x0, y0),
{
    let a = abs(x1 - x0) as int;
    let b = abs(y1 - y0) as int;
    let sxf: int = if x0 < x1 {
        1
    } else {
        -1
    };
    let syf: int = if y0 < y1 {
        1
    } else {
        -1
    };
    let sxb: int = if x1 < x0 {
        1
    } else {
        -1
    };
    let syb: int = if y1 < y0 {
        1
    } else {
        -1
    };
    if y0 == y1 {
        lemma_bres_horiz(x1, y1, sxf, syf, a, a);
        lemma_bres_horiz(x0, y0, sxb, syb, a, a);
        assert(line_pts(x0, y0, x1, y1) =~= line_pts(x1, y1, x0, y0));
    } else if x0 == x1 {
        lemma_bres_vert(x1, y1, sxf, syf, b, b);
        lemma_bres_vert(x0, y0, sxb, syb, b, b);
        assert(line_pts(x0, y0, x1, y1) =~= line_pts(x1, y1, x0, y0));
    } else {
        lemma_bres_diag(x1, y1, sxf, syf, a, a);
        lemma_bres_diag(x0, y0, sxb, syb, b, b);
        assert(line_pts(x0, y0, x1, y1) =~= line_pts(x1, y1, x0, y0));
    }
}

/// The set of points a Bresenham trace from `(x0, y0)` to `(x1, y1)`
/// visits, both endpoints included.
pub open spec fn line_pts(x0: int, y0: int, x1: int, y1: int) -> Set<(int, int)> {
    let a = abs(x1 - x0) as int;
    let b = abs(y1 - y0) as int;
    let sx: int = if x0 < x1 {
        1
    } else {
        -1
    };
    let sy: int = if y0 < y1 {
        1
    } else {
        -1
    };
    bres_rem_pts(x1, y1, sx, sy, a, b, a, b)
}

} // verus!
