//! Decisions of the pitch-detection pipeline. The curves and frequencies that
//! they look at are real numbers; each reaches this module as a sequence of
//! order keys, integers in the same order as the values that they stand for
//! and with the key 0 standing for the value 0.
use vstd::prelude::*;

use crate::guitar::Note;

verus! {

/// A candidate peak of a curve: its index and the indices of its neighbours,
/// absent at either end of the curve.
#[derive(Copy, Clone, Debug, PartialEq, Eq, Structural)]
pub struct KeyMaxima {
    pub index: usize,
    pub left_neighbor: Option<usize>,
    pub right_neighbor: Option<usize>,
}

/// The candidate peak at index `p` of a curve of `len` values.
pub open spec fn maxima_at(len: int, p: int) -> KeyMaxima {
    KeyMaxima {
        index: p as usize,
        left_neighbor: if p > 0 {
            Some((p - 1) as usize)
        } else {
            None
        },
        right_neighbor: if p < len - 1 {
            Some((p + 1) as usize)
        } else {
            None
        },
    }
}

/// The curve changes sign between index `i - 1` and index `i`.
pub open spec fn is_crossing(s: Seq<i64>, i: int) -> bool {
    0 < i < s.len() && (s[i - 1] > 0) != (s[i] > 0)
}

/// Number of sign changes up to and including index `i`.
pub open spec fn crossings(s: Seq<i64>, i: int) -> nat
    decreases i,
{
    if i <= 0 {
        0
    } else {
        crossings(s, i - 1) + if is_crossing(s, i) {
            1nat
        } else {
            0nat
        }
    }
}

/// The sign changes cut the curve into stretches; the first stretch and every
/// second one after it are searched for a peak.
pub open spec fn is_searched(s: Seq<i64>, i: int) -> bool {
    crossings(s, i) % 2 == 0
}

/// Index `p` holds the first largest value of a searched stretch.
pub open spec fn is_key_maximum(s: Seq<i64>, p: int) -> bool {
    &&& 0 <= p < s.len()
    &&& is_searched(s, p)
    &&& forall|j: int|
        0 <= j < s.len() && #[trigger] crossings(s, j) == crossings(s, p) ==> (j < p ==> s[j]
            < s[p]) && (j > p ==> s[j] <= s[p])
}

proof fn lemma_crossings_monotone(s: Seq<i64>, i: int, j: int)
    requires
        i <= j,
    ensures
        crossings(s, i) <= crossings(s, j),
    decreases j - i,
{
    if i < j {
        lemma_crossings_monotone(s, i, j - 1);
    }
}

proof fn lemma_key_maximum_unique(s: Seq<i64>, p: int, q: int)
    requires
        is_key_maximum(s, p),
        is_key_maximum(s, q),
        crossings(s, p) == crossings(s, q),
    ensures
        p == q,
{
    assert(crossings(s, q) == crossings(s, p));
}

fn key_maxima_at(p: usize, len: usize) -> (r: KeyMaxima)
    requires
        p < len,
    ensures
        r == maxima_at(len as int, p as int),
{
    let left = if p > 0 {
        Some(p - 1)
    } else {
        None
    };
    let right = if p < len - 1 {
        Some(p + 1)
    } else {
        None
    };
    KeyMaxima { index: p, left_neighbor: left, right_neighbor: right }
}

/// The candidate peaks of a curve, in increasing order of index: scanning from
/// the start, the first largest value of each searched stretch. A curve with
/// any values has a first peak, and it lies in the curve's first stretch.
pub fn key_local_maximas(levels: &[i64]) -> (r: Vec<KeyMaxima>)
    ensures
        levels.len() > 0 ==> r.len() > 0 && crossings(levels@, r@[0].index as int) == 0,
        forall|k: int|
            0 <= k < r.len() ==> is_key_maximum(levels@, r@[k].index as int) && r@[k]
                == maxima_at(levels@.len() as int, r@[k].index as int),
        forall|k: int, l: int| 0 <= k < l < r.len() ==> r@[k].index < r@[l].index,
        forall|p: int|
            is_key_maximum(levels@, p) ==> exists|k: int| 0 <= k < r.len() && r@[k].index == p,
{
    let ghost s = levels@;
    let n = levels.len();
    let mut maximas: Vec<KeyMaxima> = Vec::new();
    if n == 0 {
        return maximas;
    }
    let mut searching = true;
    let mut prev: i64 = levels[0];
    let mut max: Option<usize> = None;
    let mut index: usize = 0;
    while index < n
        invariant
            n == s.len(),
            s == levels@,
            0 <= index <= n,
            index == 0 ==> searching && max is None && prev == s[0] && maximas@.len() == 0,
            index > 0 ==> prev == s[index - 1] && searching == is_searched(s, index - 1),
            index > 0 && !searching ==> max is None,
            index > 0 && searching ==> {
                &&& max is Some
                &&& max->0 < index
                &&& crossings(s, max->0 as int) == crossings(s, index - 1)
                &&& forall|j: int|
                    0 <= j < index && #[trigger] crossings(s, j) == crossings(s, index - 1) ==> (j
                        < max->0 ==> s[j] < s[max->0 as int]) && (j > max->0 ==> s[j] <= s[max->0 as int])
            },
            forall|k: int|
                0 <= k < maximas.len() ==> is_key_maximum(s, maximas@[k].index as int)
                    && maximas@[k] == maxima_at(n as int, maximas@[k].index as int)
                    && crossings(s, maximas@[k].index as int) < crossings(s, index - 1),
            forall|k: int, l: int|
                0 <= k < l < maximas.len() ==> maximas@[k].index < maximas@[l].index,
            maximas.len() > 0 ==> crossings(s, maximas@[0].index as int) == 0,
            index > 0 && crossings(s, index - 1) > 0 ==> maximas.len() > 0,
            forall|p: int|
                is_key_maximum(s, p) && index > 0 && crossings(s, p) < crossings(s, index - 1)
                    ==> exists|k: int| 0 <= k < maximas.len() && maximas@[k].index == p,
        decreases n - index,
    {
        let sample = levels[index];
        let ghost i = index as int;
        let ghost old_maximas = maximas@;
        let crossing = (prev > 0 && sample <= 0) || (prev <= 0 && sample > 0);
        proof {
            if i > 0 {
                assert(crossing == is_crossing(s, i));
                assert(crossings(s, i) == crossings(s, i - 1) + if crossing {
                    1nat
                } else {
                    0nat
                });
            }
        }
        if crossing {
            if searching {
                let m = max.unwrap();
                proof {
                    assert forall|j: int|
                        0 <= j < s.len() && #[trigger] crossings(s, j) == crossings(
                            s,
                            m as int,
                        ) implies (j < m ==> s[j] < s[m as int]) && (j > m ==> s[j] <= s[m as int]) by {
                        if j >= i {
                            lemma_crossings_monotone(s, i, j);
                        }
                    }
                    assert forall|k: int| 0 <= k < maximas.len() implies maximas@[k].index < m by {
                        let q = maximas@[k].index as int;
                        if q >= m {
                            lemma_crossings_monotone(s, m as int, q);
                        }
                    }
                }
                maximas.push(key_maxima_at(m, n));
                max = None;
                searching = false;
                proof {
                    assert forall|p: int|
                        is_key_maximum(s, p) && crossings(s, p) < crossings(
                            s,
                            i,
                        ) implies exists|k: int| 0 <= k < maximas.len() && maximas@[k].index == p by {
                        if crossings(s, p) == crossings(s, i - 1) {
                            lemma_key_maximum_unique(s, p, m as int);
                            assert(maximas@[maximas.len() - 1].index == p);
                        } else {
                            let k = choose|k: int|
                                0 <= k < old_maximas.len() && old_maximas[k].index == p;
                            assert(maximas@[k] == old_maximas[k]);
                        }
                    }
                }
            } else {
                searching = true;
            }
        }
        if searching {
            match max {
                Some(m) => {
                    if levels[m] < sample {
                        max = Some(index);
                    }
                },
                None => {
                    max = Some(index);
                },
            }
            proof {
                let m = max->0 as int;
                assert forall|j: int|
                    0 <= j < i + 1 && #[trigger] crossings(s, j) == crossings(s, i) implies (j < m
                        ==> s[j] < s[m]) && (j > m ==> s[j] <= s[m]) by {
                    if j < i && crossing {
                        lemma_crossings_monotone(s, j, i - 1);
                    }
                }
            }
        }
        prev = sample;
        index += 1;
    }
    let ghost before_last = maximas@;
    if let Some(m) = max {
        proof {
            assert forall|k: int| 0 <= k < maximas.len() implies maximas@[k].index < m by {
                let q = maximas@[k].index as int;
                if q >= m {
                    lemma_crossings_monotone(s, m as int, q);
                }
            }
        }
        maximas.push(key_maxima_at(m, n));
    }
    proof {
        assert forall|p: int| is_key_maximum(s, p) implies exists|k: int|
            0 <= k < maximas.len() && maximas@[k].index == p by {
            lemma_crossings_monotone(s, p, n - 1);
            if crossings(s, p) == crossings(s, n - 1) {
                let m = max->0 as int;
                lemma_key_maximum_unique(s, p, m);
                assert(maximas@[maximas.len() - 1].index == p);
            } else {
                let k = choose|k: int| 0 <= k < before_last.len() && before_last[k].index == p;
                assert(maximas@[k] == before_last[k]);
            }
        }
    }
    maximas
}

/// Position of the first largest level after the first one; none where there
/// are fewer than two levels. The first peak of a self-similarity curve is the
/// curve's own start and never stands for a period.
pub fn strongest_peak(levels: &[i64]) -> (r: Option<usize>)
    ensures
        r is None <==> levels.len() < 2,
        r matches Some(k) ==> {
            &&& 1 <= k < levels.len()
            &&& forall|j: int| 1 <= j < levels.len() ==> levels[j] <= levels[k as int]
            &&& forall|j: int| 1 <= j < k ==> levels[j] < levels[k as int]
        },
{
    if levels.len() < 2 {
        return None;
    }
    let mut best: usize = 1;
    let mut i: usize = 2;
    while i < levels.len()
        invariant
            1 <= best < i <= levels.len(),
            forall|j: int| 1 <= j < i ==> levels[j] <= levels[best as int],
            forall|j: int| 1 <= j < best ==> levels[j] < levels[best as int],
        decreases levels.len() - i,
    {
        if levels[best] < levels[i] {
            best = i;
        }
        i += 1;
    }
    Some(best)
}

/// Position of the first level after the first one that reaches `threshold`:
/// the peak of the lowest lag that is nearly as strong as the strongest.
pub fn pick_maxima(levels: &[i64], threshold: i64) -> (r: Option<usize>)
    ensures
        match r {
            Some(k) => {
                &&& 1 <= k < levels.len()
                &&& levels[k as int] >= threshold
                &&& forall|j: int| 1 <= j < k ==> levels[j] < threshold
            },
            None => forall|j: int| 1 <= j < levels.len() ==> levels[j] < threshold,
        },
{
    let mut i: usize = 1;
    while i < levels.len()
        invariant
            1 <= i,
            forall|j: int| 1 <= j < i && j < levels.len() ==> levels[j] < threshold,
        decreases levels.len() - i,
    {
        if levels[i] >= threshold {
            return Some(i);
        }
        i += 1;
    }
    None
}

/// The tuning note whose distance is smallest among those within `limit`, the
/// first of the tuning on a tie; none where no distance is within `limit`.
/// `distances[i]` is the distance of the candidate frequency from
/// `tuning_notes[i]`.
pub fn infer_note(distances: &[i64], limit: i64, tuning_notes: &[Note]) -> (r: Option<Note>)
    requires
        distances.len() == tuning_notes.len(),
    ensures
        r is None <==> forall|j: int| 0 <= j < distances.len() ==> distances[j] > limit,
        r is Some ==> exists|k: int|
            {
                &&& 0 <= k < distances.len()
                &&& r == Some(tuning_notes[k])
                &&& distances[k] <= limit
                &&& forall|j: int|
                    0 <= j < distances.len() && distances[j] <= limit ==> distances[k]
                        <= distances[j]
                &&& forall|j: int| 0 <= j < k ==> distances[j] > distances[k] || distances[j] > limit
            },
{
    let mut best: Option<usize> = None;
    let mut i: usize = 0;
    while i < distances.len()
        invariant
            i <= distances.len(),
            distances.len() == tuning_notes.len(),
            best is None ==> forall|j: int| 0 <= j < i ==> distances[j] > limit,
            best matches Some(k) ==> {
                &&& k < i
                &&& distances[k as int] <= limit
                &&& forall|j: int|
                    0 <= j < i && distances[j] <= limit ==> distances[k as int] <= distances[j]
                &&& forall|j: int|
                    0 <= j < k ==> distances[j] > distances[k as int] || distances[j] > limit
            },
        decreases distances.len() - i,
    {
        if distances[i] <= limit {
            match best {
                Some(k) => {
                    if distances[i] < distances[k] {
                        best = Some(i);
                    }
                },
                None => {
                    best = Some(i);
                },
            }
        }
        i += 1;
    }
    match best {
        Some(k) => Some(tuning_notes[k]),
        None => None,
    }
}

} // verus!
