use vstd::prelude::*;
use vstd::string::StrSliceExecFns;
use vstd::string::StringExecFns;

verus! {

/// The transcript with one leading `.` removed and a trailing `.` ensured.
pub open spec fn sanitized(s: Seq<char>) -> Seq<char> {
    let t = if s.len() > 0 && s[0] == '.' { s.drop_first() } else { s };
    if t.len() > 0 && t.last() == '.' { t } else { t.push('.') }
}

/// Sanitizes a transcript: strips a single leading `.` and appends a `.`
/// unless the rest already ends with one.
pub fn sanitize(s: &str) -> (r: String)
    ensures
        r@ == sanitized(s@),
{
    let n = s.unicode_len();
    let start: usize = if n > 0 && s.get_char(0) == '.' { 1 } else { 0 };
    let mut r = String::from_str(s.substring_char(start, n));
    if !(n > start && s.get_char(n - 1) == '.') {
        proof { reveal_strlit("."); }
        r.append(".");
    }
    r
}

/// Sanitizing a transcript twice gives what sanitizing it once gives, for every
/// transcript that does not start with two dots.
pub proof fn lemma_sanitize_idempotent(s: Seq<char>)
    requires
        !(s.len() >= 2 && s[0] == '.' && s[1] == '.'),
    ensures
        sanitized(sanitized(s)) == sanitized(s),
{
    let t = if s.len() > 0 && s[0] == '.' { s.drop_first() } else { s };
    let r = sanitized(s);
    if t.len() > 0 {
        assert(t[0] != '.' || (s.len() == 0));
    }
    if r.len() > 0 && r[0] == '.' {
        assert(r.len() == 1) by {
            if t.len() > 0 {
                assert(r[0] == t[0]);
            }
        };
        assert(r.drop_first() =~= Seq::<char>::empty());
    }
}

/// The decimal digit `d` as a character.
pub open spec fn digit_char(d: nat) -> char {
    seq!['0', '1', '2', '3', '4', '5', '6', '7', '8', '9'][d as int]
}

/// The decimal notation of `n`, without leading zeros.
pub open spec fn decimal(n: nat) -> Seq<char>
    decreases n,
{
    if n < 10 {
        seq![digit_char(n)]
    } else {
        decimal(n / 10).push(digit_char(n % 10))
    }
}

/// Writes `n` in decimal.
pub fn decimal_string(n: u64) -> (r: String)
    ensures
        r@ == decimal(n as nat),
    decreases n,
{
    proof { reveal_strlit("0123456789"); }
    let digits = "0123456789";
    let d: usize = (n % 10) as usize;
    let last = digits.substring_char(d, d + 1);
    assert(last@ =~= seq![digit_char(d as nat)]);
    if n < 10 {
        String::from_str(last)
    } else {
        let mut r = decimal_string(n / 10);
        r.append(last);
        r
    }
}

/// No number is written like another one.
pub proof fn lemma_decimal_injective(a: nat, b: nat)
    requires
        decimal(a) == decimal(b),
    ensures
        a == b,
    decreases a + b,
{
    lemma_decimal_len(a);
    lemma_decimal_len(b);
    if a < 10 && b < 10 {
        assert(decimal(a) == seq![digit_char(a)]);
        assert(decimal(b) == seq![digit_char(b)]);
        assert(seq![digit_char(a)][0] == digit_char(a));
        assert(seq![digit_char(b)][0] == digit_char(b));
        lemma_digit_injective(a, b);
    } else if a >= 10 && b >= 10 {
        assert(decimal(a) == decimal(a / 10).push(digit_char(a % 10)));
        assert(decimal(b) == decimal(b / 10).push(digit_char(b % 10)));
        assert(decimal(a)[decimal(a).len() - 1] == digit_char(a % 10));
        assert(decimal(b)[decimal(b).len() - 1] == digit_char(b % 10));
        assert(decimal(a).drop_last() =~= decimal(a / 10));
        assert(decimal(b).drop_last() =~= decimal(b / 10));
        lemma_decimal_injective(a / 10, b / 10);
        lemma_digit_injective(a % 10, b % 10);
    } else if a < 10 {
        lemma_decimal_len(b / 10);
    } else {
        lemma_decimal_len(a / 10);
    }
}

proof fn lemma_digit_injective(a: nat, b: nat)
    requires
        a < 10,
        b < 10,
        digit_char(a) == digit_char(b),
    ensures
        a == b,
{
    let ds = seq!['0', '1', '2', '3', '4', '5', '6', '7', '8', '9'];
    assert(ds[0] == '0' && ds[1] == '1' && ds[2] == '2' && ds[3] == '3' && ds[4] == '4');
    assert(ds[5] == '5' && ds[6] == '6' && ds[7] == '7' && ds[8] == '8' && ds[9] == '9');
}

/// The decimal notation of a number is never empty.
pub proof fn lemma_decimal_len(n: nat)
    ensures
        decimal(n).len() >= 1,
    decreases n,
{
    if n >= 10 {
        lemma_decimal_len(n / 10);
    }
}

/// The position of the last `c` in `s`, or -1.
pub open spec fn last_index_of(s: Seq<char>, c: char) -> int
    decreases s.len(),
{
    if s.len() == 0 {
        -1
    } else if s.last() == c {
        s.len() - 1
    } else {
        last_index_of(s.drop_last(), c)
    }
}

proof fn lemma_last_index_bounds(s: Seq<char>, c: char)
    ensures
        -1 <= last_index_of(s, c) < s.len(),
        last_index_of(s, c) >= 0 ==> s[last_index_of(s, c)] == c,
    decreases s.len(),
{
    if s.len() > 0 && s.last() != c {
        lemma_last_index_bounds(s.drop_last(), c);
    }
}

/// Finds the last `c` in `s`.
fn last_index(s: &str, c: char) -> (r: Option<usize>)
    ensures
        match r {
            Some(i) => i as int == last_index_of(s@, c) && i < s@.len(),
            None => last_index_of(s@, c) == -1,
        },
{
    let mut i: usize = s.unicode_len();
    assert(s@.subrange(0, i as int) =~= s@);
    while i > 0
        invariant
            i <= s@.len(),
            last_index_of(s@.subrange(0, i as int), c) == last_index_of(s@, c),
        decreases i,
    {
        if s.get_char(i - 1) == c {
            return Some(i - 1);
        }
        assert(s@.subrange(0, i as int).drop_last() =~= s@.subrange(0, i - 1));
        i = i - 1;
    }
    None
}

/// Where the dot that starts the extension of `p` stands, or -1: the last `.`
/// of the final `/`-separated component, unless it opens that component.
pub open spec fn extension_dot(p: Seq<char>) -> int {
    let base = last_index_of(p, '/') + 1;
    let k = last_index_of(p.subrange(base, p.len() as int), '.');
    if k > 0 { base + k } else { -1 }
}

/// The extension of the path `p`, without its dot; empty where it has none.
pub open spec fn extension_of(p: Seq<char>) -> Seq<char> {
    let d = extension_dot(p);
    if d >= 0 { p.subrange(d + 1, p.len() as int) } else { Seq::empty() }
}

/// The path `p` with its extension, if any, replaced by `ext`.
pub open spec fn with_extension_of(p: Seq<char>, ext: Seq<char>) -> Seq<char> {
    let d = extension_dot(p);
    let stem = if d >= 0 { p.subrange(0, d) } else { p };
    stem.push('.') + ext
}

/// Finds the extension dot of `p`.
fn find_extension_dot(p: &str) -> (r: Option<usize>)
    ensures
        match r {
            Some(d) => d as int == extension_dot(p@) && d < p@.len(),
            None => extension_dot(p@) == -1,
        },
{
    let n = p.unicode_len();
    let base: usize = match last_index(p, '/') {
        Some(i) => i + 1,
        None => 0,
    };
    proof { lemma_last_index_bounds(p@, '/'); }
    let name = p.substring_char(base, n);
    proof { lemma_last_index_bounds(name@, '.'); }
    match last_index(name, '.') {
        Some(k) => if k > 0 { Some(base + k) } else { None },
        None => None,
    }
}

/// The extension of the path `p`, without its dot.
pub fn extension(p: &str) -> (r: String)
    ensures
        r@ == extension_of(p@),
{
    match find_extension_dot(p) {
        Some(d) => {
            let n = p.unicode_len();
            String::from_str(p.substring_char(d + 1, n))
        },
        None => String::new(),
    }
}

/// The path `p` with its extension replaced by `ext`, or `ext` added where it has none.
pub fn with_extension(p: &str, ext: &str) -> (r: String)
    ensures
        r@ == with_extension_of(p@, ext@),
{
    let end = match find_extension_dot(p) {
        Some(d) => d,
        None => p.unicode_len(),
    };
    let mut r = String::from_str(p.substring_char(0, end));
    proof { reveal_strlit("."); }
    r.append(".");
    r.append(ext);
    r
}

/// `b` joined under the directory `a`.
pub open spec fn joined(a: Seq<char>, b: Seq<char>) -> Seq<char> {
    if a.len() == 0 || a.last() == '/' { a + b } else { a.push('/') + b }
}

/// Joins the path `b` under the directory `a`, adding a `/` where `a` does not end in one.
pub fn join_path(a: &str, b: &str) -> (r: String)
    ensures
        r@ == joined(a@, b@),
{
    let n = a.unicode_len();
    let mut r = String::from_str(a);
    if !(n == 0 || a.get_char(n - 1) == '/') {
        proof { reveal_strlit("/"); }
        r.append("/");
    }
    r.append(b);
    r
}

} // verus!
