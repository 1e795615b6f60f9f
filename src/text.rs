use vstd::prelude::*;
use vstd::string::{StrSliceExecFns, StringExecFns};

verus! {

/// `t` occurs in `s` starting at position `i`.
pub open spec fn occurs_at(s: Seq<char>, t: Seq<char>, i: int) -> bool {
    0 <= i && i + t.len() <= s.len() && s.subrange(i, i + t.len()) == t
}

/// `t` is a substring of `s`.
pub open spec fn seq_contains(s: Seq<char>, t: Seq<char>) -> bool {
    exists|i: int| occurs_at(s, t, i)
}

/// The pieces of `s` between occurrences of `sep`, as `str::split` yields
/// them: always at least one piece, possibly empty.
pub open spec fn split_on(s: Seq<char>, sep: char) -> Seq<Seq<char>>
    decreases s.len(),
{
    if s.len() == 0 {
        seq![Seq::<char>::empty()]
    } else {
        let prev = split_on(s.drop_last(), sep);
        if s.last() == sep {
            prev.push(Seq::<char>::empty())
        } else {
            prev.update(prev.len() - 1, prev.last().push(s.last()))
        }
    }
}

/// `a` equals `b` once an ASCII upper-case `a` is taken to lower case.
pub open spec fn char_matches_lower(a: char, b: char) -> bool {
    a == b || ((a as u32) >= 65 && (a as u32) <= 90 && (a as u32) + 32 == (b as u32))
}

/// `s` equals the lower-case `t` when ASCII case is ignored.
pub open spec fn eq_lower(s: Seq<char>, t: Seq<char>) -> bool {
    s.len() == t.len() && forall|i: int| 0 <= i < s.len() ==> char_matches_lower(#[trigger] s[i], t[i])
}

/// `s` starts with the lower-case `t` when ASCII case is ignored.
pub open spec fn starts_with_lower(s: Seq<char>, t: Seq<char>) -> bool {
    t.len() <= s.len() && eq_lower(s.subrange(0, t.len() as int), t)
}

proof fn lemma_split_nonempty(s: Seq<char>, sep: char)
    ensures
        split_on(s, sep).len() >= 1,
    decreases s.len(),
{
    if s.len() > 0 {
        lemma_split_nonempty(s.drop_last(), sep);
    }
}

/// The characters of `s`, one by one.
pub fn chars_of(s: &str) -> (r: Vec<char>)
    ensures
        r@ == s@,
{
    let n = s.unicode_len();
    let mut r: Vec<char> = Vec::new();
    let mut i: usize = 0;
    while i < n
        invariant
            n == s@.len(),
            i <= n,
            r@ == s@.subrange(0, i as int),
        decreases n - i,
    {
        r.push(s.get_char(i));
        i = i + 1;
    }
    assert(r@ =~= s@);
    r
}

/// Whether `t` occurs in `s`.
pub fn str_contains(s: &str, t: &str) -> (r: bool)
    ensures
        r == seq_contains(s@, t@),
{
    let sc = chars_of(s);
    let tc = chars_of(t);
    let n = sc.len();
    let m = tc.len();
    if m > n {
        assert forall|i: int| !occurs_at(s@, t@, i) by {}
        return false;
    }
    let mut i: usize = 0;
    while i <= n - m
        invariant
            sc@ == s@,
            tc@ == t@,
            n == s@.len(),
            m == t@.len(),
            m <= n,
            i <= n - m + 1,
            forall|k: int| 0 <= k < i ==> !occurs_at(s@, t@, k),
        decreases n - m + 1 - i,
    {
        let mut j: usize = 0;
        let mut same = true;
        while j < m
            invariant
                sc@ == s@,
                tc@ == t@,
                n == s@.len(),
                m == t@.len(),
                i + m <= n,
                j <= m,
                same == (forall|k: int| 0 <= k < j ==> sc@[i + k] == tc@[k]),
            decreases m - j,
        {
            if sc[i + j] != tc[j] {
                same = false;
            }
            j = j + 1;
        }
        if same {
            assert(s@.subrange(i as int, i + m) =~= t@);
            assert(occurs_at(s@, t@, i as int));
            return true;
        }
        assert(!occurs_at(s@, t@, i as int)) by {
            if occurs_at(s@, t@, i as int) {
                assert forall|k: int| 0 <= k < m implies sc@[i + k] == tc@[k] by {
                    assert(s@.subrange(i as int, i + m)[k] == s@[i + k]);
                }
            }
        }
        i = i + 1;
    }
    assert forall|k: int| !occurs_at(s@, t@, k) by {
        if 0 <= k && k < i {
        }
    }
    false
}

/// The bounds `(start, end)` of the pieces of `s` between occurrences of
/// `sep`, in character positions.
pub fn split_bounds(s: &str, sep: char) -> (r: Vec<(usize, usize)>)
    ensures
        r@.len() == split_on(s@, sep).len(),
        r@.len() >= 1,
        forall|k: int|
            #![trigger r@[k]]
            0 <= k < r@.len() ==> {
                &&& r@[k].0 <= r@[k].1
                &&& r@[k].1 <= s@.len()
                &&& s@.subrange(r@[k].0 as int, r@[k].1 as int) == split_on(s@, sep)[k]
            },
{
    let sc = chars_of(s);
    let n = sc.len();
    let mut done: Vec<(usize, usize)> = Vec::new();
    let mut start: usize = 0;
    let mut i: usize = 0;
    while i < n
        invariant
            sc@ == s@,
            n == s@.len(),
            i <= n,
            start <= i,
            done@.len() + 1 == split_on(s@.subrange(0, i as int), sep).len(),
            forall|k: int|
                #![trigger done@[k]]
                0 <= k < done@.len() ==> {
                    &&& done@[k].0 <= done@[k].1
                &&& done@[k].1 <= i
                    &&& s@.subrange(done@[k].0 as int, done@[k].1 as int) == split_on(
                        s@.subrange(0, i as int),
                        sep,
                    )[k]
                },
            s@.subrange(start as int, i as int) == split_on(s@.subrange(0, i as int), sep).last(),
        decreases n - i,
    {
        let ghost pre = s@.subrange(0, i as int);
        let ghost next = s@.subrange(0, i + 1);
        assert(next.drop_last() =~= pre);
        assert(next.last() == s@[i as int]);
        proof {
            lemma_split_nonempty(pre, sep);
        }
        let ghost old_done = done@;
        let ghost st = start;
        if sc[i] == sep {
            assert(split_on(next, sep) == split_on(pre, sep).push(Seq::<char>::empty()));
            done.push((start, i));
            start = i + 1;
            assert(s@.subrange(start as int, i + 1) =~= Seq::<char>::empty());
            assert forall|k: int| #![trigger done@[k]] 0 <= k < done@.len() implies {
                &&& done@[k].0 <= done@[k].1
                &&& done@[k].1 <= i + 1
                &&& s@.subrange(done@[k].0 as int, done@[k].1 as int) == split_on(
                    next,
                    sep,
                )[k]
            } by {
                assert(split_on(next, sep)[k] == split_on(pre, sep)[k]);
                if k < old_done.len() {
                    assert(done@[k] == old_done[k]);
                } else {
                    assert(done@[k] == (st, i));
                }
            }
        } else {
            let ghost prev = split_on(pre, sep);
            assert(split_on(next, sep) == prev.update(prev.len() - 1, prev.last().push(s@[i as int])));
            assert(s@.subrange(start as int, i + 1) =~= s@.subrange(start as int, i as int).push(
                s@[i as int],
            ));
            assert forall|k: int| #![trigger done@[k]] 0 <= k < done@.len() implies {
                &&& done@[k].0 <= done@[k].1
                &&& done@[k].1 <= i + 1
                &&& s@.subrange(done@[k].0 as int, done@[k].1 as int) == split_on(
                    next,
                    sep,
                )[k]
            } by {
                assert(split_on(next, sep)[k] == prev[k]);
                assert(done@[k] == old_done[k]);
            }
        }
        i = i + 1;
        assert(next == s@.subrange(0, i as int));
    }
    assert(s@.subrange(0, n as int) =~= s@);
    proof {
        lemma_split_nonempty(s@, sep);
    }
    let ghost old_done = done@;
    done.push((start, n));
    assert forall|k: int| #![trigger done@[k]] 0 <= k < done@.len() implies {
        &&& done@[k].0 <= done@[k].1
                &&& done@[k].1 <= s@.len()
        &&& s@.subrange(done@[k].0 as int, done@[k].1 as int) == split_on(s@, sep)[k]
    } by {
        assert(split_on(s@, sep)[k] == split_on(s@.subrange(0, n as int), sep)[k]);
        if k < old_done.len() {
            assert(done@[k] == old_done[k]);
        } else {
            assert(done@[k] == (start, n));
        }
    }
    done
}

/// Whether `s` equals the lower-case `t` when ASCII case is ignored.
pub fn eq_ignore_ascii_case(s: &str, t: &str) -> (r: bool)
    ensures
        r == eq_lower(s@, t@),
{
    let sc = chars_of(s);
    let tc = chars_of(t);
    if sc.len() != tc.len() {
        return false;
    }
    let mut i: usize = 0;
    while i < sc.len()
        invariant
            sc@ == s@,
            tc@ == t@,
            sc@.len() == tc@.len(),
            i <= sc@.len(),
            forall|k: int| 0 <= k < i ==> char_matches_lower(#[trigger] sc@[k], tc@[k]),
        decreases sc@.len() - i,
    {
        let a = sc[i];
        let b = tc[i];
        let code = a as u32;
        if !(a == b || (code >= 65 && code <= 90 && code + 32 == b as u32)) {
            assert(!char_matches_lower(s@[i as int], t@[i as int]));
            return false;
        }
        i = i + 1;
    }
    true
}

/// Whether `s` starts with the lower-case `t` when ASCII case is ignored.
pub fn starts_with_ignore_ascii_case(s: &str, t: &str) -> (r: bool)
    ensures
        r == starts_with_lower(s@, t@),
{
    let n = s.unicode_len();
    let m = t.unicode_len();
    if m > n {
        return false;
    }
    let head = s.substring_char(0, m);
    eq_ignore_ascii_case(head, t)
}

} // verus!
