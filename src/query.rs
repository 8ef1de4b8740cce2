//! Reading a parameter from a URL query string (`a=1&b=2`).

use vstd::prelude::*;
use vstd::string::StrSliceExecFns;

verus! {

/// Length of the first part of `q`: the characters before the first `&`.
pub open spec fn part_len(q: Seq<char>) -> nat
    decreases q.len(),
{
    if q.len() == 0 {
        0
    } else if q[0] == '&' {
        0
    } else {
        1 + part_len(q.drop_first())
    }
}

/// `part` is `name=` followed by a value.
pub open spec fn names(part: Seq<char>, name: Seq<char>) -> bool {
    &&& part.len() > name.len()
    &&& part.subrange(0, name.len() as int) == name
    &&& part[name.len() as int] == '='
}

/// The value of the first part of `q` (parts are separated by `&`) that
/// reads `name=value`.
pub open spec fn param_value(q: Seq<char>, name: Seq<char>) -> Option<Seq<char>>
    decreases q.len(),
{
    let end = part_len(q);
    let part = q.take(end as int);
    if names(part, name) {
        Some(part.subrange(name.len() + 1 as int, part.len() as int))
    } else if end >= q.len() {
        None
    } else {
        param_value(q.skip(end + 1 as int), name)
    }
}

proof fn lemma_part_len(s: Seq<char>, m: int)
    requires
        0 <= m <= s.len(),
        forall|k: int| 0 <= k < m ==> s[k] != '&',
        m == s.len() || s[m] == '&',
    ensures
        part_len(s) == m,
    decreases m,
{
    if m > 0 {
        lemma_part_len(s.drop_first(), m - 1);
    }
}

/// The value of parameter `name` in `query`: the rest of the first
/// `&`-separated part that begins with `name=`.
pub fn get_param<'a>(query: &'a str, name: &str) -> (r: Option<&'a str>)
    ensures
        match r {
            Some(v) => param_value(query@, name@) == Some(v@),
            None => param_value(query@, name@) is None,
        },
{
    let n = query.unicode_len();
    let m = name.unicode_len();
    let mut start: usize = 0;
    let mut i: usize = 0;
    assert(query@.skip(0) =~= query@);
    while i <= n
        invariant
            n == query@.len(),
            m == name@.len(),
            start <= i,
            i <= n,
            start <= n,
            i <= n ==> forall|k: int| start <= k < i ==> query@[k] != '&',
            param_value(query@, name@) == param_value(query@.skip(start as int), name@),
        decreases n + 1 - i,
    {
        if i == n || query.get_char(i) == '&' {
            let ghost s = query@.skip(start as int);
            proof {
                lemma_part_len(s, i - start);
            }
            let part_len = i - start;
            let mut hit = part_len > m;
            let mut j: usize = 0;
            while hit && j < m
                invariant
                    n == query@.len(),
                    m == name@.len(),
                    start <= i <= n,
                    part_len == i - start,
                    hit ==> part_len > m,
                    j <= m,
                    hit ==> forall|k: int| 0 <= k < j ==> query@[start + k] == name@[k],
                    !hit ==> (part_len <= m || exists|k: int| 0 <= k < j && query@[start + k] != name@[k]),
                decreases m - j,
            {
                if query.get_char(start + j) != name.get_char(j) {
                    assert(query@[start + j] != name@[j as int]);
                    hit = false;
                }
                j += 1;
            }
            if hit && query.get_char(start + m) == '=' {
                let v = query.substring_char(start + m + 1, i);
                proof {
                    let part = s.take(i - start);
                    assert(part.subrange(0, m as int) =~= name@);
                    assert(part[m as int] == '=');
                    assert(v@ =~= part.subrange(m + 1, part.len() as int));
                    assert(names(part, name@));
                    assert(param_value(s, name@) == Some(part.subrange(m + 1, part.len() as int)));
                }
                return Some(v);
            }
            proof {
                let part = s.take(i - start);
                if names(part, name@) {
                    if part_len > m {
                        if !hit {
                            let k = choose|k: int| 0 <= k < m && query@[start + k] != name@[k];
                            assert(part.subrange(0, m as int)[k] == name@[k]);
                        }
                        assert(part[m as int] == query@[start + m]);
                    }
                }
                assert(!names(part, name@));
                if i < n {
                    assert(s.skip(i - start + 1) =~= query@.skip(i + 1));
                    assert(param_value(s, name@) == param_value(s.skip(i - start + 1), name@));
                } else {
                    assert(param_value(s, name@) is None);
                }
            }
            if i == n {
                return None;
            }
            start = i + 1;
        }
        i += 1;
    }
    None
}

} // verus!
