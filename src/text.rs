//! String helpers: case mapping and trimming through std, and a few
//! character-level operations proved here.
use vstd::prelude::*;

verus! {

/// What `str::trim` leaves of a string.
pub uninterp spec fn trimmed_of(s: Seq<char>) -> Seq<char>;

/// What `str::to_uppercase` makes of a string.
pub uninterp spec fn upper_of(s: Seq<char>) -> Seq<char>;

/// What `str::to_lowercase` makes of a string.
pub uninterp spec fn lower_of(s: Seq<char>) -> Seq<char>;

/// Relies on `str::trim`: the result depends on the characters alone, and an
/// empty string stays empty.
#[verifier::external_body]
pub(crate) fn trim_str(s: &str) -> (r: String)
    ensures
        r@ == trimmed_of(s@),
        s@.len() == 0 ==> r@.len() == 0,
{
    s.trim().to_string()
}

/// Relies on `str::to_uppercase`: the result depends on the characters alone.
#[verifier::external_body]
pub(crate) fn to_upper(s: &str) -> (r: String)
    ensures
        r@ == upper_of(s@),
{
    s.to_uppercase()
}

/// Relies on `str::to_lowercase`: the result depends on the characters alone.
#[verifier::external_body]
pub(crate) fn to_lower(s: &str) -> (r: String)
    ensures
        r@ == lower_of(s@),
{
    s.to_lowercase()
}

/// Number of leading characters of `s` equal to `c`.
pub open spec fn lead_run(s: Seq<char>, c: char) -> int
    decreases s.len(),
{
    if s.len() > 0 && s[0] == c {
        1 + lead_run(s.drop_first(), c)
    } else {
        0
    }
}

/// Number of trailing characters of `s` equal to `c`.
pub open spec fn trail_run(s: Seq<char>, c: char) -> int
    decreases s.len(),
{
    if s.len() > 0 && s.last() == c {
        1 + trail_run(s.drop_last(), c)
    } else {
        0
    }
}

/// `s` with every leading and trailing `c` removed.
pub open spec fn strip_char(s: Seq<char>, c: char) -> Seq<char> {
    let a = lead_run(s, c);
    if a == s.len() {
        Seq::empty()
    } else {
        s.subrange(a, s.len() - trail_run(s, c))
    }
}

proof fn lemma_lead_run(s: Seq<char>, c: char, i: int)
    requires
        0 <= i <= s.len(),
        forall|j: int| 0 <= j < i ==> s[j] == c,
    ensures
        i == s.len() || s[i] != c ==> lead_run(s, c) == i,
        0 <= lead_run(s, c) <= s.len(),
    decreases s.len(),
{
    reveal_with_fuel(lead_run, 2);
    if i > 0 {
        lemma_lead_run(s.drop_first(), c, i - 1);
    } else if s.len() > 0 {
        lemma_lead_run(s.drop_first(), c, 0);
    }
}

proof fn lemma_trail_run(s: Seq<char>, c: char, k: int)
    requires
        0 <= k <= s.len(),
        forall|j: int| s.len() - k <= j < s.len() ==> s[j] == c,
    ensures
        k == s.len() || s[s.len() - k - 1] != c ==> trail_run(s, c) == k,
        0 <= trail_run(s, c) <= s.len(),
    decreases s.len(),
{
    reveal_with_fuel(trail_run, 2);
    if k > 0 {
        lemma_trail_run(s.drop_last(), c, k - 1);
    } else if s.len() > 0 {
        lemma_trail_run(s.drop_last(), c, 0);
    }
}

/// Removes every leading and trailing `c`, as `str::trim_matches` does with a
/// single character.
pub fn strip_matches(s: &str, c: char) -> (r: String)
    ensures
        r@ == strip_char(s@, c),
{
    let n = s.unicode_len();
    let mut a: usize = 0;
    while a < n && s.get_char(a) == c
        invariant
            0 <= a <= n,
            n == s@.len(),
            forall|j: int| 0 <= j < a ==> s@[j] == c,
        decreases n - a,
    {
        a = a + 1;
    }
    proof {
        lemma_lead_run(s@, c, a as int);
    }
    if a == n {
        return String::new();
    }
    let mut b: usize = n;
    while b > a && s.get_char(b - 1) == c
        invariant
            a < n,
            a <= b <= n,
            n == s@.len(),
            forall|j: int| b <= j < n ==> s@[j] == c,
            s@[a as int] != c,
        decreases b,
    {
        b = b - 1;
    }
    proof {
        lemma_trail_run(s@, c, (n - b) as int);
    }
    s.substring_char(a, b).to_string()
}

/// Shortens `s` to at most `max_len` characters, ending the shortened text
/// with `...`.
pub fn truncate(s: &str, max_len: usize) -> (r: String)
    ensures
        s@.len() <= max_len ==> r@ == s@,
        s@.len() > max_len ==> r@ == s@.subrange(
            0,
            if max_len >= 3 { max_len - 3 } else { 0 },
        ) + "..."@,
{
    let n = s.unicode_len();
    if n <= max_len {
        s.to_string()
    } else {
        let keep: usize = if max_len >= 3 { max_len - 3 } else { 0 };
        let head = s.substring_char(0, keep).to_string();
        proof {
            reveal_strlit("...");
        }
        head.concat("...")
    }
}

} // verus!
