//! Character-sequence helpers shared by filename resolution, progress
//! formatting and the persistence paths: substring search, splitting around
//! separator characters, decimal rendering, and word replacement.

use vstd::prelude::*;

verus! {

/// Relies on std's `String::push`: appends exactly one character at the end.
pub assume_specification[ String::push ](s: &mut String, c: char)
    ensures
        final(s)@ == old(s)@.push(c),
;

/// The decimal digit character for a value below ten.
pub open spec fn dec_digit(d: int) -> char {
    if d == 0 {
        '0'
    } else if d == 1 {
        '1'
    } else if d == 2 {
        '2'
    } else if d == 3 {
        '3'
    } else if d == 4 {
        '4'
    } else if d == 5 {
        '5'
    } else if d == 6 {
        '6'
    } else if d == 7 {
        '7'
    } else if d == 8 {
        '8'
    } else {
        '9'
    }
}

/// Decimal rendering of a natural number, most significant digit first.
pub open spec fn spec_u64_dec(n: nat) -> Seq<char>
    decreases n,
{
    if n < 10 {
        seq![dec_digit(n as int)]
    } else {
        spec_u64_dec(n / 10) + seq![dec_digit((n % 10) as int)]
    }
}

fn dec_digit_exec(d: u64) -> (c: char)
    requires
        d < 10,
    ensures
        c == dec_digit(d as int),
{
    if d == 0 {
        '0'
    } else if d == 1 {
        '1'
    } else if d == 2 {
        '2'
    } else if d == 3 {
        '3'
    } else if d == 4 {
        '4'
    } else if d == 5 {
        '5'
    } else if d == 6 {
        '6'
    } else if d == 7 {
        '7'
    } else if d == 8 {
        '8'
    } else {
        '9'
    }
}

/// Renders a number in decimal, as std's formatting would.
pub fn u64_to_string(n: u64) -> (s: String)
    ensures
        s@ == spec_u64_dec(n as nat),
    decreases n,
{
    if n < 10 {
        let mut s = String::new();
        s.push(dec_digit_exec(n));
        s
    } else {
        let mut s = u64_to_string(n / 10);
        s.push(dec_digit_exec(n % 10));
        s
    }
}

/// Whether `h` begins with `n`.
pub open spec fn seq_starts_with(h: Seq<char>, n: Seq<char>) -> bool {
    n.len() <= h.len() && h.subrange(0, n.len() as int) == n
}

/// Whether `n` occurs anywhere in `h`.
pub open spec fn seq_contains_sub(h: Seq<char>, n: Seq<char>) -> bool
    decreases h.len(),
{
    seq_starts_with(h, n) || (h.len() > 0 && seq_contains_sub(h.subrange(1, h.len() as int), n))
}

/// An occurrence of `n` at any position of `h` makes `n` a substring of `h`.
pub proof fn lemma_contains_at(h: Seq<char>, n: Seq<char>, i: int)
    requires
        0 <= i,
        i + n.len() <= h.len(),
        h.subrange(i, i + n.len() as int) == n,
    ensures
        seq_contains_sub(h, n),
    decreases i,
{
    if i == 0 {
        assert(seq_starts_with(h, n));
    } else {
        let t = h.subrange(1, h.len() as int);
        assert(t.subrange(i - 1, i - 1 + n.len() as int) =~= h.subrange(i, i + n.len() as int));
        lemma_contains_at(t, n, i - 1);
    }
}

/// Whether the string `h` begins with `n`.
pub fn str_starts_with(h: &str, n: &str) -> (r: bool)
    ensures
        r == seq_starts_with(h@, n@),
{
    let hl = h.unicode_len();
    let nl = n.unicode_len();
    if nl > hl {
        return false;
    }
    let mut j: usize = 0;
    while j < nl
        invariant
            j <= nl <= hl,
            hl == h@.len(),
            nl == n@.len(),
            forall|k: int| 0 <= k < j ==> h@[k] == n@[k],
        decreases nl - j,
    {
        if h.get_char(j) != n.get_char(j) {
            assert(h@.subrange(0, nl as int) != n@) by {
                assert(h@.subrange(0, nl as int)[j as int] != n@[j as int]);
            }
            return false;
        }
        j += 1;
    }
    assert(h@.subrange(0, nl as int) =~= n@);
    true
}

/// Whether the string `h` contains `n` as a substring.
pub fn str_contains_sub(h: &str, n: &str) -> (r: bool)
    ensures
        r == seq_contains_sub(h@, n@),
    decreases h@.len(),
{
    if str_starts_with(h, n) {
        true
    } else if h.unicode_len() == 0 {
        false
    } else {
        let rest = h.substring_char(1, h.unicode_len());
        str_contains_sub(rest, n)
    }
}

/// Whether two strings hold the same characters.
pub fn str_eq(a: &str, b: &str) -> (r: bool)
    ensures
        r == (a@ == b@),
{
    let al = a.unicode_len();
    let bl = b.unicode_len();
    if al != bl {
        assert(a@ != b@);
        return false;
    }
    let mut i: usize = 0;
    while i < al
        invariant
            i <= al,
            al == a@.len(),
            al == b@.len(),
            forall|k: int| 0 <= k < i ==> a@[k] == b@[k],
        decreases al - i,
    {
        if a.get_char(i) != b.get_char(i) {
            assert(a@ != b@) by {
                assert(a@[i as int] != b@[i as int]);
            }
            return false;
        }
        i += 1;
    }
    assert(a@ =~= b@);
    true
}

/// The characters after the last occurrence of `c`; the whole sequence when
/// `c` does not occur.
pub open spec fn after_last(s: Seq<char>, c: char) -> Seq<char>
    decreases s.len(),
{
    if s.len() == 0 {
        s
    } else if s.last() == c {
        Seq::empty()
    } else {
        after_last(s.drop_last(), c).push(s.last())
    }
}

/// The characters before the first occurrence of `c`; the whole sequence when
/// `c` does not occur.
pub open spec fn before_first(s: Seq<char>, c: char) -> Seq<char>
    decreases s.len(),
{
    if s.len() == 0 {
        s
    } else if s[0] == c {
        Seq::empty()
    } else {
        seq![s[0]] + before_first(s.subrange(1, s.len() as int), c)
    }
}

/// The sequence with every trailing occurrence of `c` removed.
pub open spec fn trim_trailing(s: Seq<char>, c: char) -> Seq<char>
    decreases s.len(),
{
    if s.len() > 0 && s.last() == c {
        trim_trailing(s.drop_last(), c)
    } else {
        s
    }
}

/// The suffix of the string after its last occurrence of `c`.
pub fn after_last_char(s: &str, c: char) -> (r: String)
    ensures
        r@ == after_last(s@, c),
    decreases s@.len(),
{
    let n = s.unicode_len();
    if n == 0 {
        String::new()
    } else {
        let last = s.get_char(n - 1);
        if last == c {
            String::new()
        } else {
            let head = s.substring_char(0, n - 1);
            assert(head@ =~= s@.drop_last());
            let mut r = after_last_char(head, c);
            r.push(last);
            r
        }
    }
}

/// The prefix of the string before its first occurrence of `c`.
pub fn before_first_char(s: &str, c: char) -> (r: String)
    ensures
        r@ == before_first(s@, c),
    decreases s@.len(),
{
    let n = s.unicode_len();
    if n == 0 {
        String::new()
    } else {
        let first = s.get_char(0);
        if first == c {
            String::new()
        } else {
            let tail = s.substring_char(1, n);
            let rest = before_first_char(tail, c);
            let mut r = String::new();
            r.push(first);
            r.append(rest.as_str());
            assert(r@ =~= seq![s@[0]] + before_first(s@.subrange(1, s@.len() as int), c));
            r
        }
    }
}

/// The string with trailing occurrences of `c` removed.
pub fn trim_trailing_char(s: &str, c: char) -> (r: String)
    ensures
        r@ == trim_trailing(s@, c),
    decreases s@.len(),
{
    let n = s.unicode_len();
    if n > 0 && s.get_char(n - 1) == c {
        let head = s.substring_char(0, n - 1);
        assert(head@ =~= s@.drop_last());
        trim_trailing_char(head, c)
    } else {
        s.to_owned()
    }
}

/// The sequence with each occurrence of `pat` (scanned left to right, without
/// overlap) replaced by `rep`.
pub open spec fn spec_replaced(s: Seq<char>, pat: Seq<char>, rep: Seq<char>) -> Seq<char>
    decreases s.len(),
{
    if pat.len() == 0 || s.len() == 0 {
        s
    } else if seq_starts_with(s, pat) {
        rep + spec_replaced(s.subrange(pat.len() as int, s.len() as int), pat, rep)
    } else {
        seq![s[0]] + spec_replaced(s.subrange(1, s.len() as int), pat, rep)
    }
}

/// Replaces each occurrence of `pat` in `s` by `rep`, left to right.
pub fn replace_all(s: &str, pat: &str, rep: &str) -> (r: String)
    ensures
        r@ == spec_replaced(s@, pat@, rep@),
    decreases s@.len(),
{
    let n = s.unicode_len();
    if pat.unicode_len() == 0 || n == 0 {
        s.to_owned()
    } else if str_starts_with(s, pat) {
        let rest = s.substring_char(pat.unicode_len(), n);
        let tail = replace_all(rest, pat, rep);
        let mut r = rep.to_owned();
        r.append(tail.as_str());
        r
    } else {
        let rest = s.substring_char(1, n);
        let tail = replace_all(rest, pat, rep);
        let mut r = String::new();
        r.push(s.get_char(0));
        r.append(tail.as_str());
        assert(r@ =~= seq![s@[0]] + spec_replaced(s@.subrange(1, s@.len() as int), pat@, rep@));
        r
    }
}

/// The JSON text of a producer script's metadata dictionary: the Python
/// keywords for the booleans and for null, replaced word for word.
pub open spec fn spec_dict_as_json(s: Seq<char>) -> Seq<char> {
    spec_replaced(
        spec_replaced(spec_replaced(s, "True"@, "true"@), "False"@, "false"@),
        "None"@,
        "null"@,
    )
}

/// Rewrites a producer script's metadata dictionary into JSON by replacing
/// the Python boolean and null keywords.
pub fn python_dict_to_json(python_dict: &str) -> (r: Result<String, String>)
    ensures
        r matches Ok(s) && s@ == spec_dict_as_json(python_dict@),
{
    let a = replace_all(python_dict, "True", "true");
    let b = replace_all(a.as_str(), "False", "false");
    let c = replace_all(b.as_str(), "None", "null");
    Ok(c)
}

} // verus!
