//! Splitting a connection URL into its base and its database name.
//!
//! The database name is the final `/`-delimited segment, stripped of a
//! trailing `?`-query; the base is everything before that final `/`.

use vstd::prelude::*;
use vstd::string::StrSliceExecFns;

use crate::errors::Error;

verus! {

/// Index of the last `/` of `u`, or `-1` when there is none.
pub open spec fn last_slash(u: Seq<char>) -> int
    decreases u.len(),
{
    if u.len() == 0 {
        -1
    } else if u[u.len() - 1] == '/' {
        u.len() - 1
    } else {
        last_slash(u.drop_last())
    }
}

/// Index of the first `?` of `s`, or `s.len()` when there is none.
pub open spec fn first_qmark(s: Seq<char>) -> int
    decreases s.len(),
{
    if s.len() == 0 {
        0
    } else if s[0] == '?' {
        0
    } else {
        1 + first_qmark(s.drop_first())
    }
}

/// The database name the URL carries: what stands after the last `/`
/// and before any `?`.
pub open spec fn db_name_of(u: Seq<char>) -> Seq<char> {
    let rest = u.subrange(last_slash(u) + 1, u.len() as int);
    rest.subrange(0, first_qmark(rest))
}

proof fn lemma_last_slash_none(u: Seq<char>)
    requires
        forall|k: int| 0 <= k < u.len() ==> u[k] != '/',
    ensures
        last_slash(u) == -1,
    decreases u.len(),
{
    if u.len() > 0 {
        lemma_last_slash_none(u.drop_last());
    }
}

proof fn lemma_last_slash_at(u: Seq<char>, i: int)
    requires
        0 <= i < u.len(),
        u[i] == '/',
        forall|k: int| i < k < u.len() ==> u[k] != '/',
    ensures
        last_slash(u) == i,
    decreases u.len(),
{
    if i < u.len() - 1 {
        lemma_last_slash_at(u.drop_last(), i);
    }
}

proof fn lemma_first_qmark_at(s: Seq<char>, j: int)
    requires
        0 <= j <= s.len(),
        forall|k: int| 0 <= k < j ==> s[k] != '?',
        j < s.len() ==> s[j] == '?',
    ensures
        first_qmark(s) == j,
    decreases j,
{
    if j > 0 {
        lemma_first_qmark_at(s.drop_first(), j - 1);
    }
}

/// Splits a connection URL at its last `/` into the base URL and the
/// bare database name (query string stripped).  A URL without a `/`
/// cannot name a database and is rejected.
#[verifier::loop_isolation(false)]
pub fn base_and_db(url: &str) -> (r: Result<(&str, &str), Error>)
    ensures
        ({
            let u = url@;
            if last_slash(u) < 0 {
                r matches Err(e) && e matches Error::InvalidURL(s) && s@ == u
            } else {
                r matches Ok((b, n)) && b@ == u.subrange(0, last_slash(u)) && n@ == db_name_of(u)
            }
        }),
{
    let n = url.unicode_len();
    let mut i: usize = n;
    loop
        invariant
            i <= n,
            n == url@.len(),
            forall|k: int| i <= k < n ==> url@[k] != '/',
        decreases i,
    {
        if i == 0 {
            proof {
                lemma_last_slash_none(url@);
            }
            return Err(Error::InvalidURL(url.to_owned()));
        }
        let c = url.get_char(i - 1);
        if c == '/' {
            proof {
                lemma_last_slash_at(url@, i - 1);
            }
            let li = i - 1;
            let base = url.substring_char(0, li);
            let rest = url.substring_char(li + 1, n);
            let m = rest.unicode_len();
            let mut j: usize = 0;
            while j < m
                invariant
                    j <= m,
                    m == rest@.len(),
                    rest@ == url@.subrange(li + 1, n as int),
                    forall|k: int| 0 <= k < j ==> rest@[k] != '?',
                decreases m - j,
            {
                let q = rest.get_char(j);
                if q == '?' {
                    proof {
                        lemma_first_qmark_at(rest@, j as int);
                    }
                    let name = rest.substring_char(0, j);
                    return Ok((base, name));
                }
                j = j + 1;
            }
            proof {
                lemma_first_qmark_at(rest@, m as int);
                assert(rest@.subrange(0, m as int) =~= rest@);
            }
            return Ok((base, rest));
        }
        i = i - 1;
    }
}

} // verus!
