//! Comparison of RQBit version strings.

use vstd::prelude::*;
use crate::text::{chars_of, is_digit, is_ascii_digit, all_digits, parse_unsigned, scan_unsigned_exec};

verus! {

/// The maximal runs of ASCII digits in `s`, in order: the non-empty pieces of
/// `s.split(|c| !c.is_ascii_digit())`.
pub open spec fn digit_runs(s: Seq<char>) -> Seq<Seq<char>>
    decreases s.len(),
{
    if s.len() == 0 {
        Seq::empty()
    } else {
        let prev = digit_runs(s.drop_last());
        let c = s.last();
        if !is_digit(c) {
            prev
        } else if s.len() >= 2 && is_digit(s[s.len() - 2]) {
            prev.update(prev.len() - 1, prev.last().push(c))
        } else {
            prev.push(seq![c])
        }
    }
}

/// `part.parse::<u32>().unwrap_or_default()`.
pub open spec fn part_value(part: Seq<char>) -> nat {
    match parse_unsigned(part, u32::MAX as nat) {
        Ok(v) => v,
        Err(_) => 0,
    }
}

/// The numeric parts of a version string: the values of its first three digit runs.
pub open spec fn version_parts(s: Seq<char>) -> Seq<nat> {
    let runs = digit_runs(s);
    let kept = if runs.len() > 3 {
        runs.take(3)
    } else {
        runs
    };
    kept.map_values(|r: Seq<char>| part_value(r))
}

/// Part `i` of a version, zero where the version has no such part.
pub open spec fn part_at(p: Seq<nat>, i: int) -> nat {
    if 0 <= i < p.len() {
        p[i]
    } else {
        0
    }
}

/// `a` orders before `b`: at the first part where they differ (missing
/// parts counting as zero), `a`'s part is smaller.
pub open spec fn parts_less(a: Seq<nat>, b: Seq<nat>) -> bool {
    exists|i: int|
        0 <= i < 3 && (forall|j: int| 0 <= j < i ==> part_at(a, j) == part_at(b, j)) && #[trigger] part_at(
            a,
            i,
        ) < part_at(b, i)
}

/// The version named by `left` is older than the one named by `right`.
pub open spec fn version_less(left: Seq<char>, right: Seq<char>) -> bool {
    parts_less(version_parts(left), version_parts(right))
}

/// Every run is a non-empty run of digits, and a run ends the prefix exactly
/// when its last character is a digit.
proof fn lemma_runs_shape(s: Seq<char>)
    ensures
        forall|k: int| 0 <= k < digit_runs(s).len() ==> (#[trigger] digit_runs(s)[k]).len() > 0
            && all_digits(digit_runs(s)[k]),
        s.len() > 0 && is_digit(s.last()) ==> digit_runs(s).len() > 0,
    decreases s.len(),
{
    if s.len() > 0 {
        let p = s.drop_last();
        lemma_runs_shape(p);
        let prev = digit_runs(p);
        let c = s.last();
        if is_digit(c) {
            if s.len() >= 2 && is_digit(s[s.len() - 2]) {
                assert(p.last() == s[s.len() - 2]);
                let last = prev.last().push(c);
                assert(all_digits(last)) by {
                    assert forall|i: int| 0 <= i < last.len() implies #[trigger] is_digit(last[i]) by {
                        if i < prev.last().len() {
                            assert(last[i] == prev.last()[i]);
                        }
                    }
                }
                let up = prev.update(prev.len() - 1, last);
                assert forall|k: int| 0 <= k < up.len() implies (#[trigger] up[k]).len() > 0 && all_digits(up[k]) by {
                    if k < prev.len() - 1 {
                        assert(up[k] == prev[k]);
                    }
                }
            } else {
                let up = prev.push(seq![c]);
                assert forall|k: int| 0 <= k < up.len() implies (#[trigger] up[k]).len() > 0 && all_digits(up[k]) by {
                    if k < prev.len() {
                        assert(up[k] == prev[k]);
                    } else {
                        assert(up[k] == seq![c]);
                    }
                }
            }
        }
    }
}

/// Whether `runs` holds, in order, the runs `spec`.
pub open spec fn holds_runs(runs: Seq<Vec<char>>, spec: Seq<Seq<char>>) -> bool {
    runs.len() == spec.len() && forall|k: int| 0 <= k < runs.len() ==> (#[trigger] runs[k])@ == spec[k]
}

/// The digit runs of `s`.
fn digit_runs_of(s: &Vec<char>) -> (runs: Vec<Vec<char>>)
    ensures
        holds_runs(runs@, digit_runs(s@)),
{
    let mut runs: Vec<Vec<char>> = Vec::new();
    let mut i: usize = 0;
    while i < s.len()
        invariant
            i <= s@.len(),
            holds_runs(runs@, digit_runs(s@.subrange(0, i as int))),
        decreases s@.len() - i,
    {
        let c = s[i];
        let ghost pre = s@.subrange(0, i as int);
        let ghost cur = s@.subrange(0, i + 1);
        proof {
            assert(cur.drop_last() =~= pre);
            assert(cur.last() == c);
            lemma_runs_shape(pre);
        }
        if is_ascii_digit(c) {
            if i >= 1 && is_ascii_digit(s[i - 1]) {
                proof {
                    assert(cur[cur.len() - 2] == s@[i - 1]);
                    assert(pre.last() == s@[i - 1]);
                }
                let ghost before = digit_runs(pre);
                let ghost old_runs = runs@;
                let mut last = runs.pop().unwrap();
                last.push(c);
                runs.push(last);
                proof {
                    let target = before.update(before.len() - 1, before.last().push(c));
                    assert forall|k: int| 0 <= k < runs@.len() implies (#[trigger] runs@[k])@ == target[k] by {
                        if k < runs@.len() - 1 {
                            assert(runs@[k] == old_runs[k]);
                        }
                    }
                }
            } else {
                proof {
                    if i >= 1 {
                        assert(cur[cur.len() - 2] == s@[i - 1]);
                    }
                }
                let ghost before = digit_runs(pre);
                let ghost old_runs = runs@;
                let mut fresh: Vec<char> = Vec::new();
                fresh.push(c);
                runs.push(fresh);
                proof {
                    assert(fresh@ =~= seq![c]);
                    let target = before.push(seq![c]);
                    assert forall|k: int| 0 <= k < runs@.len() implies (#[trigger] runs@[k])@ == target[k] by {
                        if k < runs@.len() - 1 {
                            assert(runs@[k] == old_runs[k]);
                        }
                    }
                }
            }
        }
        i = i + 1;
    }
    proof {
        assert(s@.subrange(0, s@.len() as int) =~= s@);
    }
    runs
}

/// The numeric parts of `s`, as `version_lt` reads them.
fn parts_of(s: &str) -> (parts: Vec<u32>)
    ensures
        parts@.len() == version_parts(s@).len(),
        forall|k: int| 0 <= k < parts@.len() ==> parts@[k] as nat == #[trigger] version_parts(s@)[k],
{
    let cs = chars_of(s);
    let runs = digit_runs_of(&cs);
    proof {
        lemma_runs_shape(s@);
    }
    let n = if runs.len() > 3 {
        3
    } else {
        runs.len()
    };
    let mut parts: Vec<u32> = Vec::new();
    let mut k: usize = 0;
    while k < n
        invariant
            n <= runs@.len(),
            n == version_parts(s@).len(),
            holds_runs(runs@, digit_runs(s@)),
            k <= n,
            parts@.len() == k,
            forall|m: int| 0 <= m < k ==> parts@[m] as nat == #[trigger] version_parts(s@)[m],
            forall|m: int| 0 <= m < digit_runs(s@).len() ==> (#[trigger] digit_runs(s@)[m]).len() > 0
                && all_digits(digit_runs(s@)[m]),
        decreases n - k,
    {
        let run = &runs[k];
        proof {
            assert(run@ == digit_runs(s@)[k as int]);
            assert(run@.len() > 0 && all_digits(run@));
            assert(crate::text::is_digit(run@[0]));
            assert(run@.subrange(0, run@.len() as int) =~= run@);
        }
        let r = scan_unsigned_exec(run, 0, 0xffff_ffffu64);
        let v: u32 = match r {
            Ok(v) => v as u32,
            Err(_) => 0,
        };
        parts.push(v);
        k = k + 1;
    }
    parts
}

/// Whether version `left` is older than version `right`: their first three
/// runs of digits compare in order, a missing or unreadable part counting as zero.
pub fn version_lt(left: &str, right: &str) -> (r: bool)
    ensures
        r == version_less(left@, right@),
{
    let l = parts_of(left);
    let rp = parts_of(right);
    let ghost a = version_parts(left@);
    let ghost b = version_parts(right@);
    proof {
        lemma_at_most_three(left@);
        lemma_at_most_three(right@);
    }
    let mut i: usize = 0;
    while i < 3
        invariant
            i <= 3,
            a == version_parts(left@),
            b == version_parts(right@),
            l@.len() == a.len() <= 3,
            rp@.len() == b.len() <= 3,
            forall|k: int| 0 <= k < l@.len() ==> l@[k] as nat == #[trigger] a[k],
            forall|k: int| 0 <= k < rp@.len() ==> rp@[k] as nat == #[trigger] b[k],
            forall|j: int| 0 <= j < i ==> part_at(a, j) == part_at(b, j),
        decreases 3 - i,
    {
        let x: u32 = if i < l.len() {
            l[i]
        } else {
            0
        };
        let y: u32 = if i < rp.len() {
            rp[i]
        } else {
            0
        };
        proof {
            assert(x as nat == part_at(a, i as int));
            assert(y as nat == part_at(b, i as int));
        }
        if x < y {
            proof {
                assert(part_at(a, i as int) < part_at(b, i as int));
                assert(parts_less(a, b));
            }
            return true;
        }
        if x > y {
            proof {
                if parts_less(a, b) {
                    let k = choose|k: int|
                        0 <= k < 3 && (forall|j: int| 0 <= j < k ==> part_at(a, j) == part_at(b, j))
                            && #[trigger] part_at(a, k) < part_at(b, k);
                    if k > i {
                        assert(part_at(a, i as int) == part_at(b, i as int));
                    }
                }
            }
            return false;
        }
        i = i + 1;
    }
    proof {
        if parts_less(a, b) {
            let k = choose|k: int|
                0 <= k < 3 && (forall|j: int| 0 <= j < k ==> part_at(a, j) == part_at(b, j))
                    && #[trigger] part_at(a, k) < part_at(b, k);
            assert(part_at(a, k) == part_at(b, k));
        }
    }
    false
}

proof fn lemma_at_most_three(s: Seq<char>)
    ensures
        version_parts(s).len() <= 3,
{
}

/// Law: no version is older than itself.
pub proof fn version_lt_irreflexive(v: Seq<char>)
    ensures
        !version_less(v, v),
{
}

/// Law: of two versions, at most one is older than the other.
pub proof fn version_lt_asymmetric(a: Seq<char>, b: Seq<char>)
    ensures
        !(version_less(a, b) && version_less(b, a)),
{
    let (pa, pb) = (version_parts(a), version_parts(b));
    if version_less(a, b) && version_less(b, a) {
        let i = choose|i: int|
            0 <= i < 3 && (forall|j: int| 0 <= j < i ==> part_at(pa, j) == part_at(pb, j))
                && #[trigger] part_at(pa, i) < part_at(pb, i);
        let k = choose|k: int|
            0 <= k < 3 && (forall|j: int| 0 <= j < k ==> part_at(pb, j) == part_at(pa, j))
                && #[trigger] part_at(pb, k) < part_at(pa, k);
        if i < k {
            assert(part_at(pb, i) == part_at(pa, i));
        } else if k < i {
            assert(part_at(pa, k) == part_at(pb, k));
        }
    }
}

/// Law: older-than is transitive.
pub proof fn version_lt_transitive(a: Seq<char>, b: Seq<char>, c: Seq<char>)
    requires
        version_less(a, b),
        version_less(b, c),
    ensures
        version_less(a, c),
{
    let (pa, pb, pc) = (version_parts(a), version_parts(b), version_parts(c));
    let i = choose|i: int|
        0 <= i < 3 && (forall|j: int| 0 <= j < i ==> part_at(pa, j) == part_at(pb, j))
            && #[trigger] part_at(pa, i) < part_at(pb, i);
    let k = choose|k: int|
        0 <= k < 3 && (forall|j: int| 0 <= j < k ==> part_at(pb, j) == part_at(pc, j))
            && #[trigger] part_at(pb, k) < part_at(pc, k);
    let m = if i < k {
        i
    } else {
        k
    };
    assert(forall|j: int| 0 <= j < m ==> part_at(pa, j) == part_at(pc, j));
    if i < k {
        assert(part_at(pb, i) == part_at(pc, i));
    } else if k < i {
        assert(part_at(pa, k) == part_at(pb, k));
    }
    assert(part_at(pa, m) < part_at(pc, m));
}

} // verus!
