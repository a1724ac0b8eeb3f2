//! Verified character-level string utilities: equality, substring search,
//! line splitting, decimal formatting, and a trusted lower-casing wrapper.

use vstd::prelude::*;

verus! {

/// `pat` occurs in `l` starting at character index `i`.
pub open spec fn occurs_at(l: Seq<char>, pat: Seq<char>, i: int) -> bool {
    0 <= i && i + pat.len() <= l.len() && l.subrange(i, i + pat.len() as int) == pat
}

/// `pat` occurs somewhere in `l`.
pub open spec fn occurs_in(l: Seq<char>, pat: Seq<char>) -> bool {
    exists|i: int| occurs_at(l, pat, i)
}

/// `i` is the first character index at which `pat` occurs in `l`.
pub open spec fn first_occurrence_at(l: Seq<char>, pat: Seq<char>, i: int) -> bool {
    occurs_at(l, pat, i) && (forall|j: int| 0 <= j < i ==> !occurs_at(l, pat, j))
}

/// What `str::to_lowercase` returns for a given character sequence. Unicode
/// case mapping is far too large to restate here; the library only relies on
/// the result being a function of the input characters alone.
pub uninterp spec fn lower_of(s: Seq<char>) -> Seq<char>;

/// Relies on str::to_lowercase: the result depends on the characters alone.
#[verifier::external_body]
pub fn lowercase(s: &str) -> (r: String)
    ensures
        r@ == lower_of(s@),
{
    s.to_lowercase()
}

/// Character-by-character string equality.
pub fn str_eq(a: &str, b: &str) -> (r: bool)
    ensures
        r == (a@ == b@),
{
    let n: usize = a.unicode_len();
    if n != b.unicode_len() {
        return false;
    }
    let mut i: usize = 0;
    while i < n
        invariant
            n == a@.len(),
            n == b@.len(),
            i <= n,
            forall|j: int| 0 <= j < i ==> a@[j] == b@[j],
        decreases n - i,
    {
        if a.get_char(i) != b.get_char(i) {
            return false;
        }
        i = i + 1;
    }
    proof {
        assert(a@ =~= b@);
    }
    true
}

/// Finds the first occurrence of `pat` in `line`, as a character index.
pub fn find_first(line: &str, pat: &str) -> (r: Option<usize>)
    ensures
        match r {
            Some(i) => first_occurrence_at(line@, pat@, i as int),
            None => !occurs_in(line@, pat@),
        },
{
    let n: usize = line.unicode_len();
    let m: usize = pat.unicode_len();
    if m > n {
        return None;
    }
    if m == 0 {
        proof {
            assert(line@.subrange(0, 0) =~= pat@);
        }
        return Some(0);
    }
    let mut i: usize = 0;
    while i <= n - m
        invariant
            1 <= m <= n,
            n == line@.len(),
            m == pat@.len(),
            i <= n - m + 1,
            forall|j: int| 0 <= j < i ==> !occurs_at(line@, pat@, j),
        decreases n - m + 1 - i,
    {
        let mut k: usize = 0;
        let mut mismatch = false;
        while k < m
            invariant
                m <= n,
                i + m <= n,
                n == line@.len(),
                m == pat@.len(),
                k <= m,
                !mismatch ==> forall|t: int| 0 <= t < k ==> line@[i + t] == pat@[t],
                mismatch ==> !occurs_at(line@, pat@, i as int),
            decreases m - k,
        {
            if line.get_char(i + k) != pat.get_char(k) {
                proof {
                    if occurs_at(line@, pat@, i as int) {
                        assert(line@.subrange(i as int, i + m as int)[k as int] == pat@[k as int]);
                    }
                }
                mismatch = true;
                k = m;
            } else {
                k = k + 1;
            }
        }
        if !mismatch {
            proof {
                assert(line@.subrange(i as int, i + m as int) =~= pat@);
            }
            return Some(i);
        }
        i = i + 1;
    }
    proof {
        assert forall|j: int| !occurs_at(line@, pat@, j) by {
            if 0 <= j < i {
            } else {
            }
        }
    }
    None
}

/// Substring containment test.
pub fn contains_str(line: &str, pat: &str) -> (r: bool)
    ensures
        r == occurs_in(line@, pat@),
{
    match find_first(line, pat) {
        Some(_) => true,
        None => false,
    }
}

/// Index of the first occurrence of `pat` in `l`, or -1 if there is none.
pub open spec fn first_occ_idx(l: Seq<char>, pat: Seq<char>) -> int
    decreases l.len(),
{
    if occurs_at(l, pat, 0) {
        0
    } else if l.len() == 0 {
        -1
    } else if first_occ_idx(l.drop_first(), pat) < 0 {
        -1
    } else {
        first_occ_idx(l.drop_first(), pat) + 1
    }
}

/// An occurrence one position into the tail is an occurrence shifted by one,
/// and the other way round.
proof fn lemma_occurs_shift(l: Seq<char>, pat: Seq<char>, j: int)
    requires
        l.len() > 0,
        0 <= j,
    ensures
        occurs_at(l.drop_first(), pat, j) <==> occurs_at(l, pat, j + 1),
{
    if occurs_at(l.drop_first(), pat, j) {
        assert(l.subrange(j + 1, j + 1 + pat.len()) =~= l.drop_first().subrange(
            j,
            j + pat.len() as int,
        ));
    }
    if occurs_at(l, pat, j + 1) {
        assert(l.drop_first().subrange(j, j + pat.len() as int) =~= l.subrange(
            j + 1,
            j + 1 + pat.len(),
        ));
    }
}

/// `first_occ_idx` is what its name says: a non-negative result is the first
/// occurrence of `pat` in `l`, and a negative one means there is none.
pub proof fn lemma_first_occ_idx_spec(l: Seq<char>, pat: Seq<char>)
    ensures
        first_occ_idx(l, pat) >= 0 ==> first_occurrence_at(l, pat, first_occ_idx(l, pat)),
        first_occ_idx(l, pat) < 0 ==> !occurs_in(l, pat),
    decreases l.len(),
{
    if !occurs_at(l, pat, 0) && l.len() > 0 {
        lemma_first_occ_idx_spec(l.drop_first(), pat);
        let r = first_occ_idx(l.drop_first(), pat);
        if r >= 0 {
            lemma_occurs_shift(l, pat, r);
            assert forall|j: int| 0 <= j < r + 1 implies !occurs_at(l, pat, j) by {
                if j > 0 {
                    lemma_occurs_shift(l, pat, j - 1);
                }
            }
        } else {
            assert forall|j: int| !occurs_at(l, pat, j) by {
                if j > 0 {
                    lemma_occurs_shift(l, pat, j - 1);
                }
            }
        }
    }
}

/// A line segment with its terminating newline removed also loses one
/// trailing carriage return, so that both `\n` and `\r\n` endings delimit.
pub open spec fn strip_cr(s: Seq<char>) -> Seq<char> {
    if s.len() > 0 && s[s.len() - 1] == '\r' {
        s.take(s.len() - 1)
    } else {
        s
    }
}

/// Index of the first newline in `c`, or -1 if there is none.
pub open spec fn first_newline(c: Seq<char>) -> int
    decreases c.len(),
{
    if c.len() == 0 {
        -1
    } else if c[0] == '\n' {
        0
    } else if first_newline(c.drop_first()) < 0 {
        -1
    } else {
        first_newline(c.drop_first()) + 1
    }
}

pub proof fn lemma_first_newline_bounds(c: Seq<char>)
    ensures
        -1 <= first_newline(c) < c.len(),
    decreases c.len(),
{
    if c.len() > 0 && c[0] != '\n' {
        lemma_first_newline_bounds(c.drop_first());
    }
}

pub proof fn lemma_first_newline_at(c: Seq<char>, k: int)
    requires
        0 <= k < c.len(),
        c[k] == '\n',
        forall|j: int| 0 <= j < k ==> c[j] != '\n',
    ensures
        first_newline(c) == k,
    decreases c.len(),
{
    if k > 0 {
        assert(forall|j: int| 0 <= j < k - 1 ==> c.drop_first()[j] == c[j + 1]);
        lemma_first_newline_at(c.drop_first(), k - 1);
    }
}

pub proof fn lemma_first_newline_none(c: Seq<char>)
    requires
        forall|j: int| 0 <= j < c.len() ==> c[j] != '\n',
    ensures
        first_newline(c) < 0,
    decreases c.len(),
{
    if c.len() > 0 {
        assert(forall|j: int| 0 <= j < c.drop_first().len() ==> c.drop_first()[j] == c[j + 1]);
        lemma_first_newline_none(c.drop_first());
    }
}

/// The lines of `c`: segments split at each newline, with one carriage
/// return stripped before a newline, and no empty segment after a trailing
/// newline. This follows the splitting convention of `str::lines`.
pub open spec fn spec_lines(c: Seq<char>) -> Seq<Seq<char>>
    decreases c.len(),
    via spec_lines_decreases
{
    if c.len() == 0 {
        Seq::empty()
    } else if first_newline(c) < 0 {
        seq![c]
    } else {
        seq![strip_cr(c.take(first_newline(c)))] + spec_lines(c.skip(first_newline(c) + 1))
    }
}

#[via_fn]
proof fn spec_lines_decreases(c: Seq<char>) {
    lemma_first_newline_bounds(c);
}

/// Splits `content` into its lines, as `spec_lines` describes.
pub fn split_lines<'a>(content: &'a str) -> (r: Vec<&'a str>)
    ensures
        r@.len() == spec_lines(content@).len(),
        forall|j: int| 0 <= j < r@.len() ==> (#[trigger] r@[j])@ == spec_lines(content@)[j],
{
    let n: usize = content.unicode_len();
    let mut r: Vec<&'a str> = Vec::new();
    let ghost mut done: Seq<Seq<char>> = Seq::empty();
    let mut st: usize = 0;
    let mut i: usize = 0;
    proof {
        assert(content@.skip(0) =~= content@);
        assert(done + spec_lines(content@) =~= spec_lines(content@));
    }
    while i < n
        invariant
            st <= i <= n,
            n == content@.len(),
            r@.len() == done.len(),
            forall|j: int| 0 <= j < r@.len() ==> (#[trigger] r@[j])@ == done[j],
            spec_lines(content@) == done + spec_lines(content@.skip(st as int)),
            forall|j: int| st <= j < i ==> content@[j] != '\n',
        decreases n - i,
    {
        if content.get_char(i) == '\n' {
            let e: usize = if i > st && content.get_char(i - 1) == '\r' {
                i - 1
            } else {
                i
            };
            let seg = content.substring_char(st, e);
            proof {
                let d = content@.skip(st as int);
                assert(forall|j: int| 0 <= j < i - st ==> d[j] == content@[st + j]);
                lemma_first_newline_at(d, i - st);
                assert(d.take(i - st) =~= content@.subrange(st as int, i as int));
                assert(strip_cr(d.take(i - st)) =~= content@.subrange(st as int, e as int));
                assert(d.skip(i - st + 1) =~= content@.skip(i + 1));
                assert(spec_lines(d) == seq![strip_cr(d.take(i - st))] + spec_lines(
                    content@.skip(i + 1),
                ));
                done = done.push(seg@);
                assert(spec_lines(content@) =~= done + spec_lines(content@.skip(i + 1)));
            }
            r.push(seg);
            st = i + 1;
        }
        i = i + 1;
    }
    if st < n {
        let seg = content.substring_char(st, n);
        proof {
            let d = content@.skip(st as int);
            assert(forall|j: int| 0 <= j < d.len() ==> d[j] == content@[st + j]);
            lemma_first_newline_none(d);
            assert(seg@ =~= d);
            done = done.push(seg@);
            assert(spec_lines(content@) =~= done);
        }
        r.push(seg);
    } else {
        proof {
            assert(content@.skip(st as int) =~= Seq::<char>::empty());
            assert(spec_lines(content@) =~= done);
        }
    }
    r
}

/// The character for one decimal digit.
pub open spec fn spec_digit_char(d: int) -> char {
    if d == 0 {
        '0'
    } else if d == 1 {
        '1'
    } else if d == 2 {
        '2'
    } else if d == 3 {
        '3'
    } else if d == 4 {
        '4'
    } else if d == 5 {
        '5'
    } else if d == 6 {
        '6'
    } else if d == 7 {
        '7'
    } else if d == 8 {
        '8'
    } else {
        '9'
    }
}

/// The usual decimal rendering of `n`, most significant digit first.
pub open spec fn spec_decimal(n: nat) -> Seq<char>
    decreases n,
{
    if n < 10 {
        seq![spec_digit_char(n as int)]
    } else {
        spec_decimal(n / 10).push(spec_digit_char((n % 10) as int))
    }
}

fn digit_str(d: usize) -> (r: &'static str)
    requires
        d < 10,
    ensures
        r@ == seq![spec_digit_char(d as int)],
{
    if d == 0 {
        proof {
            reveal_strlit("0");
            assert("0"@ =~= seq![spec_digit_char(0)]);
        }
        "0"
    } else if d == 1 {
        proof {
            reveal_strlit("1");
            assert("1"@ =~= seq![spec_digit_char(1)]);
        }
        "1"
    } else if d == 2 {
        proof {
            reveal_strlit("2");
            assert("2"@ =~= seq![spec_digit_char(2)]);
        }
        "2"
    } else if d == 3 {
        proof {
            reveal_strlit("3");
            assert("3"@ =~= seq![spec_digit_char(3)]);
        }
        "3"
    } else if d == 4 {
        proof {
            reveal_strlit("4");
            assert("4"@ =~= seq![spec_digit_char(4)]);
        }
        "4"
    } else if d == 5 {
        proof {
            reveal_strlit("5");
            assert("5"@ =~= seq![spec_digit_char(5)]);
        }
        "5"
    } else if d == 6 {
        proof {
            reveal_strlit("6");
            assert("6"@ =~= seq![spec_digit_char(6)]);
        }
        "6"
    } else if d == 7 {
        proof {
            reveal_strlit("7");
            assert("7"@ =~= seq![spec_digit_char(7)]);
        }
        "7"
    } else if d == 8 {
        proof {
            reveal_strlit("8");
            assert("8"@ =~= seq![spec_digit_char(8)]);
        }
        "8"
    } else {
        proof {
            reveal_strlit("9");
            assert("9"@ =~= seq![spec_digit_char(9)]);
        }
        "9"
    }
}

/// Renders `n` in decimal.
pub fn usize_to_string(n: usize) -> (r: String)
    ensures
        r@ == spec_decimal(n as nat),
    decreases n,
{
    if n < 10 {
        String::from_str(digit_str(n))
    } else {
        let s = usize_to_string(n / 10);
        let r = s.concat(digit_str(n % 10));
        proof {
            assert(r@ =~= spec_decimal((n / 10) as nat).push(spec_digit_char((n % 10) as int)));
        }
        r
    }
}

} // verus!
