//! Character-level text handling shared by the rest of the library:
//! whitespace trimming, splitting on a separator, literal comparison and
//! decimal rendering of integers, each stated over `Seq<char>`.
use vstd::prelude::*;
use vstd::string::*;

verus! {

/// The Unicode `White_Space` property, which `char::is_whitespace` tests.
pub open spec fn is_white_space(c: char) -> bool {
    let u = c as u32;
    ||| 0x9 <= u <= 0xd
    ||| u == 0x20
    ||| u == 0x85
    ||| u == 0xa0
    ||| u == 0x1680
    ||| 0x2000 <= u <= 0x200a
    ||| u == 0x2028
    ||| u == 0x2029
    ||| u == 0x202f
    ||| u == 0x205f
    ||| u == 0x3000
}

/// Number of leading characters of `s` that satisfy `p`.
pub open spec fn prefix_len_while(s: Seq<char>, p: spec_fn(char) -> bool) -> nat
    decreases s.len(),
{
    if s.len() > 0 && p(s[0]) {
        1 + prefix_len_while(s.drop_first(), p)
    } else {
        0
    }
}

/// Number of trailing characters of `s` that satisfy `p`.
pub open spec fn suffix_len_while(s: Seq<char>, p: spec_fn(char) -> bool) -> nat
    decreases s.len(),
{
    if s.len() > 0 && p(s.last()) {
        1 + suffix_len_while(s.drop_last(), p)
    } else {
        0
    }
}

pub open spec fn white_space_pred() -> spec_fn(char) -> bool {
    |c: char| is_white_space(c)
}

pub open spec fn not_sep_pred(sep: char) -> spec_fn(char) -> bool {
    |c: char| c != sep
}

/// `s` without its leading whitespace.
pub open spec fn trim_start(s: Seq<char>) -> Seq<char> {
    s.skip(prefix_len_while(s, white_space_pred()) as int)
}

/// `s` without its trailing whitespace.
pub open spec fn trim_end(s: Seq<char>) -> Seq<char> {
    s.take(s.len() - suffix_len_while(s, white_space_pred()))
}

/// `s` without leading and trailing whitespace, as `str::trim` gives it.
pub open spec fn trim(s: Seq<char>) -> Seq<char> {
    trim_end(trim_start(s))
}

/// The first piece of `s` split at `sep` (all of `s` when `sep` does not occur).
pub open spec fn first_field(s: Seq<char>, sep: char) -> Seq<char> {
    s.take(prefix_len_while(s, not_sep_pred(sep)) as int)
}

/// The last piece of `s` split at `sep` (all of `s` when `sep` does not occur).
pub open spec fn last_field(s: Seq<char>, sep: char) -> Seq<char> {
    s.skip(s.len() - suffix_len_while(s, not_sep_pred(sep)))
}

/// The digit character for `d` in `0..10`.
pub open spec fn digit_char(d: nat) -> char {
    if d == 0 { '0' }
    else if d == 1 { '1' }
    else if d == 2 { '2' }
    else if d == 3 { '3' }
    else if d == 4 { '4' }
    else if d == 5 { '5' }
    else if d == 6 { '6' }
    else if d == 7 { '7' }
    else if d == 8 { '8' }
    else { '9' }
}

/// Decimal rendering of a natural number, most significant digit first.
pub open spec fn decimal(n: nat) -> Seq<char>
    decreases n,
{
    if n < 10 {
        seq![digit_char(n)]
    } else {
        decimal(n / 10).push(digit_char(n % 10))
    }
}

/// Decimal rendering of an integer, with a leading `-` when it is negative.
pub open spec fn signed_decimal(n: int) -> Seq<char> {
    if n < 0 {
        seq!['-'] + decimal((-n) as nat)
    } else {
        decimal(n as nat)
    }
}

pub proof fn lemma_prefix_len_bounds(s: Seq<char>, p: spec_fn(char) -> bool)
    ensures
        prefix_len_while(s, p) <= s.len(),
        forall|k: int| 0 <= k < prefix_len_while(s, p) ==> p(#[trigger] s[k]),
        prefix_len_while(s, p) < s.len() ==> !p(s[prefix_len_while(s, p) as int]),
    decreases s.len(),
{
    if s.len() > 0 && p(s[0]) {
        lemma_prefix_len_bounds(s.drop_first(), p);
        assert forall|k: int| 0 <= k < prefix_len_while(s, p) implies p(#[trigger] s[k]) by {
            if k > 0 {
                assert(s[k] == s.drop_first()[k - 1]);
            }
        }
    }
}

pub proof fn lemma_suffix_len_bounds(s: Seq<char>, p: spec_fn(char) -> bool)
    ensures
        suffix_len_while(s, p) <= s.len(),
        forall|k: int| s.len() - suffix_len_while(s, p) <= k < s.len() ==> p(#[trigger] s[k]),
        suffix_len_while(s, p) < s.len() ==> !p(s[s.len() - suffix_len_while(s, p) - 1]),
    decreases s.len(),
{
    if s.len() > 0 && p(s.last()) {
        lemma_suffix_len_bounds(s.drop_last(), p);
        assert forall|k: int| s.len() - suffix_len_while(s, p) <= k < s.len() implies p(
            #[trigger] s[k],
        ) by {
            if k < s.len() - 1 {
                assert(s[k] == s.drop_last()[k]);
            }
        }
    }
}

/// The count of leading characters satisfying `p` is pinned down by where the
/// first character failing `p` stands.
pub proof fn lemma_prefix_len_is(s: Seq<char>, p: spec_fn(char) -> bool, i: int)
    requires
        0 <= i <= s.len(),
        forall|k: int| 0 <= k < i ==> p(#[trigger] s[k]),
        i == s.len() || !p(s[i]),
    ensures
        prefix_len_while(s, p) == i,
    decreases i,
{
    if i > 0 {
        assert(p(s[0]));
        assert forall|k: int| 0 <= k < i - 1 implies p(#[trigger] s.drop_first()[k]) by {
            assert(s.drop_first()[k] == s[k + 1]);
        }
        if i < s.len() {
            assert(s.drop_first()[i - 1] == s[i]);
        }
        lemma_prefix_len_is(s.drop_first(), p, i - 1);
    }
}

/// The count of trailing characters satisfying `p` is pinned down by where the
/// last character failing `p` stands.
pub proof fn lemma_suffix_len_is(s: Seq<char>, p: spec_fn(char) -> bool, j: int)
    requires
        0 <= j <= s.len(),
        forall|k: int| j <= k < s.len() ==> p(#[trigger] s[k]),
        j == 0 || !p(s[j - 1]),
    ensures
        suffix_len_while(s, p) == s.len() - j,
    decreases s.len() - j,
{
    if j < s.len() {
        assert(p(s.last()));
        assert forall|k: int| j <= k < s.drop_last().len() implies p(#[trigger] s.drop_last()[k]) by {
            assert(s.drop_last()[k] == s[k]);
        }
        if j > 0 {
            assert(s.drop_last()[j - 1] == s[j - 1]);
        }
        lemma_suffix_len_is(s.drop_last(), p, j);
    }
}

/// Trimming is the subrange between the first and after the last
/// non-whitespace character.
pub proof fn lemma_trim_is_subrange(s: Seq<char>, i: int, j: int)
    requires
        0 <= i <= j <= s.len(),
        forall|k: int| 0 <= k < i ==> is_white_space(#[trigger] s[k]),
        forall|k: int| j <= k < s.len() ==> is_white_space(#[trigger] s[k]),
        i == s.len() || !is_white_space(s[i]),
        j == i || !is_white_space(s[j - 1]),
    ensures
        trim(s) == s.subrange(i, j),
{
    let p = white_space_pred();
    assert forall|k: int| 0 <= k < i implies p(#[trigger] s[k]) by {}
    lemma_prefix_len_is(s, p, i);
    let t = s.skip(i);
    assert forall|k: int| j - i <= k < t.len() implies p(#[trigger] t[k]) by {
        assert(t[k] == s[k + i]);
    }
    if j - i > 0 {
        assert(t[j - i - 1] == s[j - 1]);
    }
    lemma_suffix_len_is(t, p, j - i);
    assert(trim(s) =~= s.subrange(i, j));
}

/// Trimming twice trims no more than trimming once.
pub proof fn lemma_trim_idempotent(s: Seq<char>)
    ensures
        trim(trim(s)) == trim(s),
{
    let p = white_space_pred();
    lemma_prefix_len_bounds(s, p);
    let i = prefix_len_while(s, p) as int;
    let t = s.skip(i);
    lemma_suffix_len_bounds(t, p);
    let j = i + t.len() - suffix_len_while(t, p);
    assert forall|k: int| 0 <= k < i implies is_white_space(#[trigger] s[k]) by {
        assert(p(s[k]));
    }
    assert forall|k: int| j <= k < s.len() implies is_white_space(#[trigger] s[k]) by {
        assert(s[k] == t[k - i]);
        assert(p(t[k - i]));
    }
    if j > i {
        assert(s[j - 1] == t[j - 1 - i]);
    }
    lemma_trim_is_subrange(s, i, j);
    let r = s.subrange(i, j);
    assert forall|k: int| 0 <= k < 0 implies is_white_space(#[trigger] r[k]) by {}
    assert forall|k: int| r.len() <= k < r.len() implies is_white_space(#[trigger] r[k]) by {}
    if r.len() > 0 {
        assert(r[0] == s[i]);
        assert(r[r.len() - 1] == s[j - 1]);
    }
    lemma_trim_is_subrange(r, 0, r.len() as int);
    assert(r.subrange(0, r.len() as int) =~= r);
}

/// Whether `c` has the Unicode `White_Space` property.
pub fn is_whitespace(c: char) -> (r: bool)
    ensures
        r == is_white_space(c),
{
    let u = c as u32;
    (0x9 <= u && u <= 0xd) || u == 0x20 || u == 0x85 || u == 0xa0 || u == 0x1680 || (0x2000
        <= u && u <= 0x200a) || u == 0x2028 || u == 0x2029 || u == 0x202f || u == 0x205f || u
        == 0x3000
}

/// `s` with leading and trailing whitespace removed.
pub fn trim_str(s: &str) -> (r: String)
    ensures
        r@ == trim(s@),
{
    let n = s.unicode_len();
    let mut i: usize = 0;
    while i < n && is_whitespace(s.get_char(i))
        invariant
            n == s@.len(),
            i <= n,
            forall|k: int| 0 <= k < i ==> is_white_space(#[trigger] s@[k]),
        decreases n - i,
    {
        i = i + 1;
    }
    let mut j: usize = n;
    while j > i && is_whitespace(s.get_char(j - 1))
        invariant
            n == s@.len(),
            i <= j <= n,
            forall|k: int| j <= k < n ==> is_white_space(#[trigger] s@[k]),
        decreases j,
    {
        j = j - 1;
    }
    proof {
        lemma_trim_is_subrange(s@, i as int, j as int);
    }
    String::from_str(s.substring_char(i, j))
}

/// The part of `s` before the first `sep`, or all of `s`.
pub fn first_field_of(s: &str, sep: char) -> (r: String)
    ensures
        r@ == first_field(s@, sep),
{
    let n = s.unicode_len();
    let mut i: usize = 0;
    while i < n && s.get_char(i) != sep
        invariant
            n == s@.len(),
            i <= n,
            forall|k: int| 0 <= k < i ==> #[trigger] s@[k] != sep,
        decreases n - i,
    {
        i = i + 1;
    }
    proof {
        let p = not_sep_pred(sep);
        assert forall|k: int| 0 <= k < i implies p(#[trigger] s@[k]) by {}
        lemma_prefix_len_is(s@, p, i as int);
    }
    String::from_str(s.substring_char(0, i))
}

/// The part of `s` after the last `sep`, or all of `s`.
pub fn last_field_of(s: &str, sep: char) -> (r: String)
    ensures
        r@ == last_field(s@, sep),
{
    let n = s.unicode_len();
    let mut j: usize = n;
    while j > 0 && s.get_char(j - 1) != sep
        invariant
            n == s@.len(),
            j <= n,
            forall|k: int| j <= k < n ==> #[trigger] s@[k] != sep,
        decreases j,
    {
        j = j - 1;
    }
    proof {
        let p = not_sep_pred(sep);
        assert forall|k: int| j <= k < n implies p(#[trigger] s@[k]) by {}
        lemma_suffix_len_is(s@, p, j as int);
        assert(s@.skip(j as int) =~= s@.subrange(j as int, n as int));
    }
    String::from_str(s.substring_char(j, n))
}

/// Whether `s` holds exactly the characters of `lit`.
pub fn text_is(s: &str, lit: &str) -> (r: bool)
    ensures
        r == (s@ == lit@),
{
    let a = String::from_str(s);
    let b = String::from_str(lit);
    a == b
}

/// `a` followed by `b`.
pub fn join2(a: &str, b: &str) -> (r: String)
    ensures
        r@ == a@ + b@,
{
    let mut r = String::from_str(a);
    r.append(b);
    r
}

/// `a`, `b` and `c` one after another.
pub fn join3(a: &str, b: &str, c: &str) -> (r: String)
    ensures
        r@ == a@ + b@ + c@,
{
    let mut r = String::from_str(a);
    r.append(b);
    r.append(c);
    r
}

/// The one-character string for the digit `d`.
fn digit_str(d: u64) -> (r: &'static str)
    requires
        d < 10,
    ensures
        r@ == seq![digit_char(d as nat)],
{
    let digits = "0123456789";
    proof {
        reveal_strlit("0123456789");
    }
    let r = digits.substring_char(d as usize, (d + 1) as usize);
    assert(r@ =~= seq![digit_char(d as nat)]);
    r
}

/// Decimal rendering of `n`.
pub fn decimal_string(n: u64) -> (r: String)
    ensures
        r@ == decimal(n as nat),
    decreases n,
{
    if n < 10 {
        String::from_str(digit_str(n))
    } else {
        let mut r = decimal_string(n / 10);
        r.append(digit_str(n % 10));
        r
    }
}

/// Appends the decimal rendering of `n` to `s`.
pub fn push_decimal(s: &mut String, n: u64)
    ensures
        final(s)@ == old(s)@ + decimal(n as nat),
{
    let d = decimal_string(n);
    s.append(d.as_str());
}

/// Decimal rendering of `n`, with a leading `-` when it is negative.
pub fn signed_decimal_string(n: i64) -> (r: String)
    ensures
        r@ == signed_decimal(n as int),
{
    if n < 0 {
        let magnitude: u64 = if n == i64::MIN {
            9223372036854775808u64
        } else {
            (-n) as u64
        };
        let mut r = String::from_str("-");
        proof {
            reveal_strlit("-");
        }
        let digits = decimal_string(magnitude);
        r.append(digits.as_str());
        r
    } else {
        decimal_string(n as u64)
    }
}

} // verus!
