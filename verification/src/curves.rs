//! Tone curves as a user writes them.

use crate::crop::{integer, read_integer};
use crate::error::{invalid, Failure, ScanError};
use crate::processing::pairs_of;
use crate::text::{chars_of, find, find_char, lemma_find, split, split_chars, texts, trim, trimmed};
use vstd::prelude::*;
use vstd::slice::slice_subrange;

verus! {

/// One point of a curve: two integers from 0 to 255 around a colon.
pub open spec fn curve_point(part: Seq<char>) -> Option<(int, int)> {
    let k = find(part, ':');
    if k >= part.len() {
        None
    } else {
        match (integer(trim(part.take(k))), integer(trim(part.skip(k + 1)))) {
            (Ok(x), Ok(y)) => if 0 <= x <= 255 && 0 <= y <= 255 {
                Some((x, y))
            } else {
                None
            },
            _ => None,
        }
    }
}

/// The points of the first `n` parts, each to the right of the one before.
pub open spec fn curve_points(parts: Seq<Seq<char>>, n: int) -> Option<Seq<(int, int)>>
    decreases n,
{
    if n <= 0 {
        Some(Seq::empty())
    } else {
        match (curve_points(parts, n - 1), curve_point(parts[n - 1])) {
            (Some(before), Some(point)) => if before.len() == 0 || before.last().0 < point.0 {
                Some(before.push(point))
            } else {
                None
            },
            _ => None,
        }
    }
}

/// The refusal of a text that is no curve.
pub open spec fn no_curve() -> Failure {
    Failure::Invalid("curves must be at least two x:y points from 0 to 255 with increasing x"@)
}

/// The curve that a text asks for: none for a blank one.
pub open spec fn curve_of(text: Seq<char>) -> Result<Option<Seq<(int, int)>>, Failure> {
    if trim(text).len() == 0 {
        Ok(None)
    } else {
        let parts = split(text, ',');
        match curve_points(parts, parts.len() as int) {
            Some(points) => if points.len() >= 2 {
                Ok(Some(points))
            } else {
                Err(no_curve())
            },
            None => Err(no_curve()),
        }
    }
}

fn read_point(part: &[char]) -> (r: Option<[i32; 2]>)
    ensures
        match r {
            Some(p) => curve_point(part@) == Some((p[0] as int, p[1] as int)),
            None => curve_point(part@) is None,
        },
{
    let k: usize = find_char(part, ':');
    proof {
        lemma_find(part@, ':');
    }
    if k >= part.len() {
        return None;
    }
    let left = slice_subrange(part, 0, k);
    let right = slice_subrange(part, k + 1, part.len());
    assert(left@ =~= part@.take(k as int));
    assert(right@ =~= part@.skip(k + 1));
    match (read_integer(trimmed(left)), read_integer(trimmed(right))) {
        (Ok(x), Ok(y)) => {
            if 0 <= x && x <= 255 && 0 <= y && y <= 255 {
                Some([x, y])
            } else {
                None
            }
        },
        _ => None,
    }
}

proof fn lemma_refused(parts: Seq<Seq<char>>, k: int, n: int)
    requires
        0 <= k <= n,
        curve_points(parts, k) is None,
    ensures
        curve_points(parts, n) is None,
    decreases n - k,
{
    if k < n {
        lemma_refused(parts, k, n - 1);
    }
}

proof fn lemma_count(parts: Seq<Seq<char>>, n: int)
    requires
        0 <= n,
        curve_points(parts, n) is Some,
    ensures
        curve_points(parts, n)->0.len() == n,
    decreases n,
{
    if n > 0 {
        lemma_count(parts, n - 1);
    }
}

/// Reads the points of a tone curve.
pub fn parse_curve_points(text: &str) -> (r: Result<Option<Vec<[i32; 2]>>, ScanError>)
    ensures
        match r {
            Ok(Some(points)) => curve_of(text@) == Ok::<Option<Seq<(int, int)>>, Failure>(
                Some(pairs_of(points@)),
            ),
            Ok(None) => curve_of(text@) == Ok::<Option<Seq<(int, int)>>, Failure>(None),
            Err(error) => curve_of(text@) == Err::<Option<Seq<(int, int)>>, Failure>(error@),
        },
{
    let chars = chars_of(text);
    if trimmed(chars.as_slice()).len() == 0 {
        return Ok(None);
    }
    let parts = split_chars(chars.as_slice(), ',');
    let ghost all = texts(parts@);
    let total: usize = parts.len();
    let mut points: Vec<[i32; 2]> = Vec::new();
    let mut i: usize = 0;
    assert(pairs_of(points@) =~= Seq::<(int, int)>::empty());
    while i < total
        invariant
            i <= total,
            total == parts@.len(),
            all == texts(parts@),
            all == split(text@, ','),
            trim(text@).len() != 0,
            points@.len() == i,
            curve_points(all, i as int) == Some(pairs_of(points@)),
        decreases total - i,
    {
        assert(all[i as int] == parts@[i as int]@);
        let point = match read_point(parts[i].as_slice()) {
            Some(point) => point,
            None => {
                proof {
                    lemma_refused(all, i + 1, total as int);
                }
                return Err(
                    invalid(
                        "curves must be at least two x:y points from 0 to 255 with increasing x",
                    ),
                );
            },
        };
        if i > 0 && points[i - 1][0] >= point[0] {
            proof {
                assert(pairs_of(points@).last() == (points@[i - 1][0] as int, points@[i - 1][1] as int));
                lemma_refused(all, i + 1, total as int);
            }
            return Err(
                invalid("curves must be at least two x:y points from 0 to 255 with increasing x"),
            );
        }
        proof {
            if i > 0 {
                assert(pairs_of(points@).last() == (points@[i - 1][0] as int, points@[i - 1][1] as int));
            }
        }
        let ghost before = pairs_of(points@);
        points.push(point);
        assert(pairs_of(points@) =~= before.push((point[0] as int, point[1] as int)));
        i += 1;
    }
    if total < 2 {
        return Err(
            invalid("curves must be at least two x:y points from 0 to 255 with increasing x"),
        );
    }
    Ok(Some(points))
}

/// A curve that is read is a function: its points lie within bytes, and each lies to the right of
/// every earlier one.
pub proof fn curves_rise(parts: Seq<Seq<char>>, n: int, i: int, j: int)
    requires
        0 <= i < j < n,
        curve_points(parts, n) is Some,
    ensures
        0 <= curve_points(parts, n)->0[i].0 < curve_points(parts, n)->0[j].0 <= 255,
    decreases n,
{
    lemma_count(parts, n - 1);
    lemma_count(parts, n);
    if j < n - 1 {
        curves_rise(parts, n - 1, i, j);
    } else if i < n - 2 {
        curves_rise(parts, n - 1, i, n - 2);
    } else if n >= 2 {
        lemma_in_bytes(parts, n - 1, i);
    }
}

proof fn lemma_in_bytes(parts: Seq<Seq<char>>, n: int, i: int)
    requires
        0 <= i < n,
        curve_points(parts, n) is Some,
    ensures
        0 <= curve_points(parts, n)->0[i].0 <= 255,
    decreases n,
{
    lemma_count(parts, n - 1);
    if i < n - 1 {
        lemma_in_bytes(parts, n - 1, i);
    }
}

/// A point that is written as two decimal numbers with a colon between them is read back, the horizontal
/// number first.
#[verifier::spinoff_prover]
#[verifier::rlimit(60)]
pub proof fn written_points_are_read_back(x: int, y: int)
    requires
        0 <= x <= 255,
        0 <= y <= 255,
    ensures
        curve_point(crate::text::signed(x) + seq![':'] + crate::text::signed(y)) == Some((x, y)),
{
    let left = crate::text::signed(x);
    let right = crate::text::signed(y);
    let part = left + seq![':'] + right;
    crate::crop::lemma_signed(x);
    crate::crop::lemma_signed(y);
    crate::text::lemma_decimal(x as nat);
    let k = left.len() as int;
    assert forall|i: int| 0 <= i < k implies part[i] != ':' by {
        assert(part[i] == left[i]);
        assert(crate::text::is_digit(left[i]));
    }
    assert(part[k] == ':');
    crate::text::lemma_find_is(part, ':', k);
    assert(part.take(k) =~= left);
    assert(part.skip(k + 1) =~= right);
    let none = Seq::<char>::empty();
    crate::text::lemma_trim_padded(none, left, none);
    crate::text::lemma_trim_padded(none, right, none);
    assert(none + left + none =~= left);
    assert(none + right + none =~= right);
}

/// The points of a curve are those of its parts, in their order.
pub proof fn curves_keep_their_points(parts: Seq<Seq<char>>, n: int, i: int)
    requires
        0 <= i < n,
        curve_points(parts, n) is Some,
    ensures
        curve_points(parts, n)->0.len() == n,
        Some(curve_points(parts, n)->0[i]) == curve_point(parts[i]),
    decreases n,
{
    lemma_count(parts, n - 1);
    lemma_count(parts, n);
    if i < n - 1 {
        curves_keep_their_points(parts, n - 1, i);
    }
}

} // verus!
