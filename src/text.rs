//! Character-sequence primitives shared by the canonicalisers.
use vstd::prelude::*;
use vstd::string::*;

verus! {

/// Lexicographic order on character sequences, by code point: the order of
/// `str`'s `Ord` (UTF-8 preserves code-point order).
pub open spec fn str_lt(a: Seq<char>, b: Seq<char>) -> bool
    decreases a.len(),
{
    if b.len() == 0 {
        false
    } else if a.len() == 0 {
        true
    } else if a[0] != b[0] {
        a[0] < b[0]
    } else {
        str_lt(a.drop_first(), b.drop_first())
    }
}

/// Strict lexicographic comparison of two strings.
pub fn str_less(a: &str, b: &str) -> (r: bool)
    ensures
        r == str_lt(a@, b@),
{
    let la = a.unicode_len();
    let lb = b.unicode_len();
    let mut i: usize = 0;
    assert(a@.skip(0) =~= a@);
    assert(b@.skip(0) =~= b@);
    while i < la && i < lb
        invariant
            la == a@.len(),
            lb == b@.len(),
            i <= la,
            i <= lb,
            str_lt(a@, b@) == str_lt(a@.skip(i as int), b@.skip(i as int)),
        decreases la - i,
    {
        let ca = a.get_char(i);
        let cb = b.get_char(i);
        if ca != cb {
            return ca < cb;
        }
        assert(a@.skip(i as int).drop_first() =~= a@.skip(i + 1));
        assert(b@.skip(i as int).drop_first() =~= b@.skip(i + 1));
        i = i + 1;
    }
    i < lb
}

/// Relies on `String::push`: appends one character.
#[verifier::external_body]
pub(crate) fn push_char(s: &mut String, c: char)
    ensures
        final(s)@ == old(s)@.push(c),
{
    s.push(c)
}

/// `s` with every `+` written as `%20`.
pub open spec fn plus_as_pct20(s: Seq<char>) -> Seq<char>
    decreases s.len(),
{
    if s.len() == 0 {
        Seq::empty()
    } else if s.last() == '+' {
        plus_as_pct20(s.drop_last()) + seq!['%', '2', '0']
    } else {
        plus_as_pct20(s.drop_last()).push(s.last())
    }
}

/// Replaces each literal `+` with `%20`.
pub fn replace_plus(s: &str) -> (r: String)
    ensures
        r@ == plus_as_pct20(s@),
{
    let n = s.unicode_len();
    let mut r = String::new();
    let mut i: usize = 0;
    while i < n
        invariant
            n == s@.len(),
            i <= n,
            r@ == plus_as_pct20(s@.take(i as int)),
        decreases n - i,
    {
        let c = s.get_char(i);
        assert(s@.take(i + 1).drop_last() =~= s@.take(i as int));
        if c == '+' {
            push_char(&mut r, '%');
            push_char(&mut r, '2');
            push_char(&mut r, '0');
            assert(r@ =~= plus_as_pct20(s@.take(i + 1)));
        } else {
            push_char(&mut r, c);
        }
        i = i + 1;
    }
    assert(s@.take(n as int) =~= s@);
    r
}

/// No `+` is left once every `+` has been rewritten.
pub proof fn lemma_no_plus_left(s: Seq<char>)
    ensures
        !plus_as_pct20(s).contains('+'),
    decreases s.len(),
{
    if s.len() > 0 {
        lemma_no_plus_left(s.drop_last());
        let p = plus_as_pct20(s.drop_last());
        if s.last() == '+' {
            assert forall|j: int| 0 <= j < plus_as_pct20(s).len() implies plus_as_pct20(s)[j]
                != '+' by {
                if j >= p.len() {
                    assert(plus_as_pct20(s)[j] == seq!['%', '2', '0'][j - p.len()]);
                } else {
                    assert(plus_as_pct20(s)[j] == p[j]);
                }
            }
        } else {
            assert forall|j: int| 0 <= j < plus_as_pct20(s).len() implies plus_as_pct20(s)[j]
                != '+' by {
                if j < p.len() {
                    assert(plus_as_pct20(s)[j] == p[j]);
                }
            }
        }
    }
}

/// Concatenation of two strings into a new one.
pub fn concat2(a: &str, b: &str) -> (r: String)
    ensures
        r@ == a@ + b@,
{
    let mut r = String::from_str(a);
    r.append(b);
    r
}

/// What `str::trim` leaves of `s`.
pub uninterp spec fn trim_of(s: Seq<char>) -> Seq<char>;

/// Relies on `str::trim`: `s` without leading and trailing white space.
#[verifier::external_body]
pub(crate) fn trim(s: &str) -> (r: &str)
    ensures
        r@ == trim_of(s@),
{
    s.trim()
}

/// What `str::to_lowercase` makes of `s`.
pub uninterp spec fn lower_of(s: Seq<char>) -> Seq<char>;

/// Relies on `str::to_lowercase`: the Unicode lower case of `s`.
#[verifier::external_body]
pub(crate) fn lowercase(s: &str) -> (r: String)
    ensures
        r@ == lower_of(s@),
{
    s.to_lowercase()
}

/// `s` with every run of one or more `c` written as a single `c`.
pub open spec fn collapse_runs(s: Seq<char>, c: char) -> Seq<char>
    decreases s.len(),
{
    if s.len() == 0 {
        Seq::empty()
    } else if s.last() == c && s.len() >= 2 && s[s.len() - 2] == c {
        collapse_runs(s.drop_last(), c)
    } else {
        collapse_runs(s.drop_last(), c).push(s.last())
    }
}

/// Relies on regex's `Regex::replace_all` with the pattern ` +` and the replacement ` `:
/// each leftmost longest run of spaces becomes one space.
#[verifier::external_body]
pub(crate) fn collapse_spaces(s: &str) -> (r: String)
    ensures
        r@ == collapse_runs(s@, ' '),
{
    regex::Regex::new(" +").unwrap().replace_all(s, " ").into_owned()
}

/// Relies on regex's `Regex::replace_all` with the pattern `[\t]+` and the replacement
/// `\t`: each leftmost longest run of tabs becomes one tab.
#[verifier::external_body]
pub(crate) fn collapse_tabs(s: &str) -> (r: String)
    ensures
        r@ == collapse_runs(s@, '\t'),
{
    regex::Regex::new("[\\t]+").unwrap().replace_all(s, "\t").into_owned()
}

/// Whether `s` begins with `prefix`.
pub fn starts_with(s: &str, prefix: &str) -> (r: bool)
    ensures
        r == prefix@.is_prefix_of(s@),
{
    let n = s.unicode_len();
    let m = prefix.unicode_len();
    if m > n {
        return false;
    }
    let mut i: usize = 0;
    while i < m
        invariant
            n == s@.len(),
            m == prefix@.len(),
            m <= n,
            i <= m,
            forall|j: int| 0 <= j < i ==> prefix@[j] == s@[j],
        decreases m - i,
    {
        if s.get_char(i) != prefix.get_char(i) {
            return false;
        }
        i = i + 1;
    }
    true
}

/// Whether two strings hold the same characters.
pub fn str_equal(a: &str, b: &str) -> (r: bool)
    ensures
        r == (a@ == b@),
{
    if a.unicode_len() != b.unicode_len() {
        return false;
    }
    let r = starts_with(a, b);
    proof {
        if r {
            assert(a@ =~= b@);
        }
    }
    r
}

} // verus!
