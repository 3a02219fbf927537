//! Character-sequence primitives shared by the rest of the library.
//!
//! Strings are modelled by their views, `Seq<char>`.  The executable
//! functions here work on `Vec<char>` and are proved against the spec
//! functions of the same module.

use vstd::prelude::*;

verus! {

// ---------------------------------------------------------------------------
// Character classes
// ---------------------------------------------------------------------------

/// Unicode `White_Space`, the property that `char::is_whitespace` tests.
pub open spec fn is_ws(c: char) -> bool {
    let n = c as u32;
    ||| 9 <= n <= 13
    ||| n == 32
    ||| n == 0x85
    ||| n == 0xA0
    ||| n == 0x1680
    ||| 0x2000 <= n <= 0x200A
    ||| n == 0x2028
    ||| n == 0x2029
    ||| n == 0x202F
    ||| n == 0x205F
    ||| n == 0x3000
}

pub open spec fn is_digit(c: char) -> bool {
    48 <= (c as u32) <= 57
}

pub open spec fn digit_val(c: char) -> nat {
    ((c as u32) - 48) as nat
}

pub open spec fn digit_char(d: nat) -> char {
    ((48 + d) as u32) as char
}

pub open spec fn is_ascii_upper(c: char) -> bool {
    65 <= (c as u32) <= 90
}

pub open spec fn is_ascii_lower(c: char) -> bool {
    97 <= (c as u32) <= 122
}

/// `char::to_ascii_lowercase`.
pub open spec fn ascii_lower(c: char) -> char {
    if is_ascii_upper(c) {
        ((c as u32) + 32) as char
    } else {
        c
    }
}

/// `char::to_ascii_uppercase`.
pub open spec fn ascii_upper(c: char) -> char {
    if is_ascii_lower(c) {
        ((c as u32) - 32) as char
    } else {
        c
    }
}

/// Equality of two strings up to ASCII case, as `str::eq_ignore_ascii_case`.
pub open spec fn eq_ignore_case(a: Seq<char>, b: Seq<char>) -> bool {
    &&& a.len() == b.len()
    &&& forall|i: int| 0 <= i < a.len() ==> ascii_lower(#[trigger] a[i]) == ascii_lower(b[i])
}

pub fn is_whitespace(c: char) -> (b: bool)
    ensures
        b == is_ws(c),
{
    let n: u32 = c as u32;
    (9 <= n && n <= 13) || n == 32 || n == 0x85 || n == 0xA0 || n == 0x1680 || (0x2000 <= n && n
        <= 0x200A) || n == 0x2028 || n == 0x2029 || n == 0x202F || n == 0x205F || n == 0x3000
}

pub fn to_ascii_lower(c: char) -> (r: char)
    ensures
        r == ascii_lower(c),
{
    let n: u32 = c as u32;
    if 65 <= n && n <= 90 {
        let m: u32 = n + 32;
        assert(m as char == ((c as u32) + 32) as char);
        char_from_ascii(m)
    } else {
        c
    }
}

pub fn to_ascii_upper(c: char) -> (r: char)
    ensures
        r == ascii_upper(c),
{
    let n: u32 = c as u32;
    if 97 <= n && n <= 122 {
        let m: u32 = n - 32;
        char_from_ascii(m)
    } else {
        c
    }
}

pub fn char_from_ascii(n: u32) -> (c: char)
    requires
        n < 128,
    ensures
        c == n as char,
        c as u32 == n,
{
    let b: u8 = n as u8;
    let c: char = b as char;
    assert(c as u32 == n);
    c
}

pub fn chars_eq_ignore_case(a: &Vec<char>, b: &Vec<char>) -> (r: bool)
    ensures
        r == eq_ignore_case(a@, b@),
{
    if a.len() != b.len() {
        return false;
    }
    let mut i: usize = 0;
    while i < a.len()
        invariant
            a@.len() == b@.len(),
            i <= a@.len(),
            forall|j: int| 0 <= j < i ==> ascii_lower(#[trigger] a@[j]) == ascii_lower(b@[j]),
        decreases a@.len() - i,
    {
        if to_ascii_lower(a[i]) != to_ascii_lower(b[i]) {
            return false;
        }
        i = i + 1;
    }
    true
}

// ---------------------------------------------------------------------------
// Conversions between `str`, `String` and `Vec<char>`
// ---------------------------------------------------------------------------

/// Appends one character to a string (`String::push`).
#[verifier::external_body]
pub(crate) fn push_char(s: &mut String, c: char)
    ensures
        final(s)@ == old(s)@.push(c),
{
    s.push(c);
}

/// The characters of `s`, in order.
pub fn to_chars(s: &str) -> (v: Vec<char>)
    ensures
        v@ == s@,
{
    let mut v: Vec<char> = Vec::new();
    for c in it: s.chars()
        invariant
            v@ == it.seq().take(it.index() as int),
            it.seq() == s@,
    {
        v.push(c);
    }
    v
}

/// The string made of the characters of `v`.
pub fn from_chars(v: &Vec<char>) -> (s: String)
    ensures
        s@ == v@,
{
    let mut s = String::new();
    let mut i: usize = 0;
    while i < v.len()
        invariant
            i <= v@.len(),
            s@ == v@.take(i as int),
        decreases v@.len() - i,
    {
        push_char(&mut s, v[i]);
        assert(v@.take(i as int).push(v@[i as int]) =~= v@.take(i + 1));
        i = i + 1;
    }
    assert(v@.take(v@.len() as int) =~= v@);
    s
}

/// Appends the characters of `t` to the string `s`.
pub fn append_str(s: &mut String, t: &str)
    ensures
        final(s)@ == old(s)@ + t@,
{
    let v = to_chars(t);
    let mut i: usize = 0;
    while i < v.len()
        invariant
            i <= v@.len(),
            v@ == t@,
            s@ == old(s)@ + v@.take(i as int),
        decreases v@.len() - i,
    {
        push_char(s, v[i]);
        assert(v@.take(i as int).push(v@[i as int]) =~= v@.take(i + 1));
        i = i + 1;
    }
    assert(v@.take(v@.len() as int) =~= v@);
}

/// Appends the characters of `w` to `v`.
pub fn extend(v: &mut Vec<char>, w: &Vec<char>)
    ensures
        final(v)@ == old(v)@ + w@,
{
    let mut i: usize = 0;
    while i < w.len()
        invariant
            i <= w@.len(),
            v@ == old(v)@ + w@.take(i as int),
        decreases w@.len() - i,
    {
        v.push(w[i]);
        assert(w@.take(i as int).push(w@[i as int]) =~= w@.take(i + 1));
        i = i + 1;
    }
    assert(w@.take(w@.len() as int) =~= w@);
}

/// `v[a..b]` as a new vector.
pub fn slice(v: &Vec<char>, a: usize, b: usize) -> (r: Vec<char>)
    requires
        a <= b <= v@.len(),
    ensures
        r@ == v@.subrange(a as int, b as int),
{
    let mut r: Vec<char> = Vec::new();
    let mut i: usize = a;
    while i < b
        invariant
            a <= i <= b <= v@.len(),
            r@ == v@.subrange(a as int, i as int),
        decreases b - i,
    {
        r.push(v[i]);
        assert(v@.subrange(a as int, i as int).push(v@[i as int]) =~= v@.subrange(
            a as int,
            i + 1,
        ));
        i = i + 1;
    }
    r
}

// ---------------------------------------------------------------------------
// Trimming
// ---------------------------------------------------------------------------

/// `s` with its leading white space removed.
pub open spec fn trim_start(s: Seq<char>) -> Seq<char>
    decreases s.len(),
{
    if s.len() > 0 && is_ws(s[0]) {
        trim_start(s.drop_first())
    } else {
        s
    }
}

/// `s` with its trailing white space removed.
pub open spec fn trim_end(s: Seq<char>) -> Seq<char>
    decreases s.len(),
{
    if s.len() > 0 && is_ws(s.last()) {
        trim_end(s.drop_last())
    } else {
        s
    }
}

/// `s` with white space removed at both ends, as `str::trim` does.
pub open spec fn trim(s: Seq<char>) -> Seq<char> {
    trim_end(trim_start(s))
}

proof fn lemma_trim_start_shape(s: Seq<char>)
    ensures
        trim_start(s).len() > 0 ==> !is_ws(trim_start(s)[0]),
        trim_start(s).len() <= s.len(),
        trim_start(s) == s.skip(s.len() - trim_start(s).len()),
    decreases s.len(),
{
    if s.len() > 0 && is_ws(s[0]) {
        lemma_trim_start_shape(s.drop_first());
        assert(s.drop_first().skip(s.drop_first().len() - trim_start(s).len()) =~= s.skip(
            s.len() - trim_start(s).len(),
        ));
    } else {
        assert(s.skip(0) =~= s);
    }
}

proof fn lemma_trim_end_shape(s: Seq<char>)
    ensures
        trim_end(s).len() > 0 ==> !is_ws(trim_end(s).last()),
        trim_end(s).len() <= s.len(),
        trim_end(s) == s.take(trim_end(s).len() as int),
    decreases s.len(),
{
    if s.len() > 0 && is_ws(s.last()) {
        lemma_trim_end_shape(s.drop_last());
        assert(s.drop_last().take(trim_end(s).len() as int) =~= s.take(trim_end(s).len() as int));
    } else {
        assert(s.take(s.len() as int) =~= s);
    }
}

/// A trimmed string neither starts nor ends with white space.
pub proof fn lemma_trim_ends(s: Seq<char>)
    ensures
        trim(s).len() > 0 ==> !is_ws(trim(s)[0]) && !is_ws(trim(s).last()),
{
    lemma_trim_start_shape(s);
    lemma_trim_end_shape(trim_start(s));
    if trim(s).len() > 0 {
        assert(trim(s)[0] == trim_start(s)[0]);
    }
}

proof fn lemma_trim_start_keeps(s: Seq<char>, i: int)
    requires
        0 <= i < s.len(),
        !is_ws(s[i]),
    ensures
        trim_start(s).len() >= s.len() - i,
    decreases s.len(),
{
    if s.len() > 0 && is_ws(s[0]) {
        lemma_trim_start_keeps(s.drop_first(), i - 1);
    }
}

proof fn lemma_trim_end_keeps(s: Seq<char>)
    requires
        s.len() > 0,
        !is_ws(s[0]),
    ensures
        trim_end(s).len() > 0,
    decreases s.len(),
{
    if is_ws(s.last()) {
        lemma_trim_end_keeps(s.drop_last());
    }
}

/// Trimming leaves something of a string that holds a character other than
/// white space.
pub proof fn lemma_trim_nonempty(s: Seq<char>, i: int)
    requires
        0 <= i < s.len(),
        !is_ws(s[i]),
    ensures
        trim(s).len() > 0,
{
    lemma_trim_start_keeps(s, i);
    lemma_trim_start_shape(s);
    lemma_trim_end_keeps(trim_start(s));
}

/// Trimming twice is trimming once.
pub proof fn lemma_trim_twice(s: Seq<char>)
    ensures
        trim(trim(s)) == trim(s),
{
    lemma_trim_ends(s);
    lemma_trim_unchanged(trim(s));
}

/// A string that neither starts nor ends with white space is its own trim.
pub proof fn lemma_trim_unchanged(s: Seq<char>)
    requires
        s.len() > 0 ==> !is_ws(s[0]) && !is_ws(s.last()),
    ensures
        trim(s) == s,
{
    assert(trim_start(s) == s);
    assert(trim_end(s) == s);
}

/// `s` without any of its leading copies of `c` (`str::trim_start_matches`).
pub open spec fn strip_all_start(s: Seq<char>, c: char) -> Seq<char>
    decreases s.len(),
{
    if s.len() > 0 && s[0] == c {
        strip_all_start(s.drop_first(), c)
    } else {
        s
    }
}

/// `s` without any of its trailing copies of `c` (`str::trim_end_matches`).
pub open spec fn strip_all_end(s: Seq<char>, c: char) -> Seq<char>
    decreases s.len(),
{
    if s.len() > 0 && s.last() == c {
        strip_all_end(s.drop_last(), c)
    } else {
        s
    }
}

/// The bounds of `trim(v)` inside `v`.
pub fn trim_bounds(v: &Vec<char>) -> (r: (usize, usize))
    ensures
        r.0 <= r.1 <= v@.len(),
        v@.subrange(r.0 as int, r.1 as int) == trim(v@),
{
    let n = v.len();
    let mut i: usize = 0;
    assert(v@.subrange(0, n as int) =~= v@);
    while i < n && is_whitespace(v[i])
        invariant
            n == v@.len(),
            i <= n,
            trim_start(v@) == trim_start(v@.subrange(i as int, n as int)),
        decreases n - i,
    {
        assert(v@.subrange(i as int, n as int).drop_first() =~= v@.subrange(i + 1, n as int));
        i = i + 1;
    }
    assert(trim_start(v@.subrange(i as int, n as int)) == v@.subrange(i as int, n as int));
    let mut j: usize = n;
    while j > i && is_whitespace(v[j - 1])
        invariant
            n == v@.len(),
            i <= j <= n,
            trim(v@) == trim_end(v@.subrange(i as int, j as int)),
        decreases j,
    {
        assert(v@.subrange(i as int, j as int).drop_last() =~= v@.subrange(i as int, j - 1));
        j = j - 1;
    }
    (i, j)
}

/// `trim(v)` as a new vector.
pub fn trim_chars(v: &Vec<char>) -> (r: Vec<char>)
    ensures
        r@ == trim(v@),
{
    let (a, b) = trim_bounds(v);
    slice(v, a, b)
}

/// `s.trim()` as a vector of characters.
pub fn trimmed(s: &str) -> (r: Vec<char>)
    ensures
        r@ == trim(s@),
{
    let v = to_chars(s);
    trim_chars(&v)
}

/// `s.trim().to_string()`.
pub fn trim_string(s: &str) -> (r: String)
    ensures
        r@ == trim(s@),
{
    let v = trimmed(s);
    from_chars(&v)
}

/// `v.trim_start_matches(c)`.
pub fn strip_all_start_chars(v: &Vec<char>, c: char) -> (r: Vec<char>)
    ensures
        r@ == strip_all_start(v@, c),
{
    let n = v.len();
    let mut i: usize = 0;
    assert(v@.subrange(0, n as int) =~= v@);
    while i < n && v[i] == c
        invariant
            n == v@.len(),
            i <= n,
            strip_all_start(v@, c) == strip_all_start(v@.subrange(i as int, n as int), c),
        decreases n - i,
    {
        assert(v@.subrange(i as int, n as int).drop_first() =~= v@.subrange(i + 1, n as int));
        i = i + 1;
    }
    slice(v, i, n)
}

/// `v.trim_end_matches(c)`.
pub fn strip_all_end_chars(v: &Vec<char>, c: char) -> (r: Vec<char>)
    ensures
        r@ == strip_all_end(v@, c),
{
    let n = v.len();
    let mut j: usize = n;
    assert(v@.subrange(0, n as int) =~= v@);
    while j > 0 && v[j - 1] == c
        invariant
            n == v@.len(),
            j <= n,
            strip_all_end(v@, c) == strip_all_end(v@.subrange(0, j as int), c),
        decreases j,
    {
        assert(v@.subrange(0, j as int).drop_last() =~= v@.subrange(0, j - 1));
        j = j - 1;
    }
    slice(v, 0, j)
}

// ---------------------------------------------------------------------------
// Searching and splitting
// ---------------------------------------------------------------------------

/// `i` is the first position of `c` in `s`.
pub open spec fn is_first(s: Seq<char>, c: char, i: int) -> bool {
    &&& 0 <= i < s.len()
    &&& s[i] == c
    &&& forall|j: int| 0 <= j < i ==> s[j] != c
}

/// The first position of `c` in `s`, as `str::find` with a `char` pattern.
pub open spec fn find(s: Seq<char>, c: char) -> Option<int> {
    if exists|i: int| is_first(s, c, i) {
        Some(choose|i: int| is_first(s, c, i))
    } else {
        None
    }
}

pub proof fn lemma_find_some(s: Seq<char>, c: char, i: int)
    requires
        is_first(s, c, i),
    ensures
        find(s, c) == Some(i),
{
    let k = choose|k: int| is_first(s, c, k);
    assert(is_first(s, c, k));
    if k < i {
        assert(s[k] != c);
    }
    if i < k {
        assert(s[i] != c);
    }
}

pub proof fn lemma_find_none(s: Seq<char>, c: char)
    requires
        forall|j: int| 0 <= j < s.len() ==> s[j] != c,
    ensures
        find(s, c) is None,
{
}

pub proof fn lemma_find_bounds(s: Seq<char>, c: char)
    ensures
        find(s, c) matches Some(i) ==> is_first(s, c, i),
        find(s, c) is None ==> !s.contains(c),
{
    if find(s, c) is None && s.contains(c) {
        let k = choose|k: int| 0 <= k < s.len() && s[k] == c;
        lemma_first_exists(s, c, k);
    }
}

proof fn lemma_first_exists(s: Seq<char>, c: char, k: int)
    requires
        0 <= k < s.len(),
        s[k] == c,
    ensures
        exists|i: int| is_first(s, c, i),
    decreases k,
{
    if exists|j: int| 0 <= j < k && s[j] == c {
        let j = choose|j: int| 0 <= j < k && s[j] == c;
        lemma_first_exists(s, c, j);
    } else {
        assert(is_first(s, c, k));
    }
}

/// The first position of `c` in `v` at or after `from`, relative to `from`.
pub fn find_from(v: &Vec<char>, c: char, from: usize) -> (r: Option<usize>)
    requires
        from <= v@.len(),
    ensures
        r matches Some(i) ==> find(v@.skip(from as int), c) == Some(i as int),
        r is None ==> find(v@.skip(from as int), c) is None,
{
    let ghost s = v@.skip(from as int);
    let mut i: usize = from;
    while i < v.len()
        invariant
            from <= i <= v@.len(),
            s == v@.skip(from as int),
            forall|j: int| 0 <= j < i - from ==> s[j] != c,
        decreases v@.len() - i,
    {
        if v[i] == c {
            proof {
                assert(is_first(s, c, i - from));
                lemma_find_some(s, c, i - from);
            }
            return Some(i - from);
        }
        i = i + 1;
    }
    proof {
        lemma_find_none(s, c);
    }
    None
}

/// The first position of `c` in `v`.
pub fn find_char(v: &Vec<char>, c: char) -> (r: Option<usize>)
    ensures
        r matches Some(i) ==> find(v@, c) == Some(i as int),
        r is None ==> find(v@, c) is None,
{
    assert(v@.skip(0) =~= v@);
    find_from(v, c, 0)
}

/// Whether `c` occurs in `v`.
pub fn contains_char(v: &Vec<char>, c: char) -> (r: bool)
    ensures
        r == v@.contains(c),
{
    let f = find_char(v, c);
    proof {
        lemma_find_bounds(v@, c);
    }
    f.is_some()
}

/// The pieces of `s` between the separators `c`, as `str::split` with a `char`.
pub open spec fn split(s: Seq<char>, c: char) -> Seq<Seq<char>>
    decreases s.len(),
{
    match find(s, c) {
        Some(i) => if 0 <= i < s.len() {
            seq![s.take(i)] + split(s.skip(i + 1), c)
        } else {
            seq![s]
        },
        None => seq![s],
    }
}

/// The views of a sequence of character vectors.
pub open spec fn views(v: Seq<Vec<char>>) -> Seq<Seq<char>> {
    v.map_values(|x: Vec<char>| x@)
}

pub fn split_char(v: &Vec<char>, c: char) -> (r: Vec<Vec<char>>)
    ensures
        views(r@) == split(v@, c),
{
    let mut r: Vec<Vec<char>> = Vec::new();
    let mut pos: usize = 0;
    let n = v.len();
    assert(v@.skip(0) =~= v@);
    loop
        invariant
            n == v@.len(),
            pos <= v@.len(),
            split(v@, c) == views(r@) + split(v@.skip(pos as int), c),
        decreases v@.len() - pos,
    {
        let ghost rest = v@.skip(pos as int);
        match find_from(v, c, pos) {
            Some(i) => {
                proof {
                    lemma_find_bounds(rest, c);
                    assert(find(rest, c) == Some(i as int));
                    assert(is_first(rest, c, i as int));
                    assert(rest.len() == v@.len() - pos);
                }
                let piece = slice(v, pos, pos + i);
                let ghost old_r = r@;
                r.push(piece);
                proof {
                    assert(rest.take(i as int) =~= piece@);
                    assert(rest.skip(i + 1) =~= v@.skip(pos + i + 1));
                    assert(views(r@) =~= views(old_r) + seq![piece@]);
                    assert(split(rest, c) == seq![rest.take(i as int)] + split(rest.skip(i + 1), c));
                    assert(views(old_r) + (seq![piece@] + split(v@.skip(pos + i + 1), c))
                        =~= views(r@) + split(v@.skip(pos + i + 1), c));
                }
                pos = pos + i + 1;
            },
            None => {
                let piece = slice(v, pos, v.len());
                let ghost old_r = r@;
                r.push(piece);
                proof {
                    assert(rest =~= piece@);
                    assert(views(r@) =~= views(old_r) + seq![piece@]);
                }
                return r;
            },
        }
    }
}

/// The pieces of `parts` joined by `sep`, as `[&str]::join`.
pub open spec fn join(parts: Seq<Seq<char>>, sep: Seq<char>) -> Seq<char>
    decreases parts.len(),
{
    if parts.len() == 0 {
        Seq::empty()
    } else if parts.len() == 1 {
        parts[0]
    } else {
        join(parts.drop_last(), sep) + sep + parts.last()
    }
}

pub fn join_chars(parts: &Vec<Vec<char>>, sep: &Vec<char>) -> (r: Vec<char>)
    ensures
        r@ == join(views(parts@), sep@),
{
    let mut r: Vec<char> = Vec::new();
    let mut i: usize = 0;
    while i < parts.len()
        invariant
            i <= parts@.len(),
            r@ == join(views(parts@).take(i as int), sep@),
        decreases parts@.len() - i,
    {
        let ghost before = r@;
        if i > 0 {
            extend(&mut r, sep);
        }
        extend(&mut r, &parts[i]);
        proof {
            let t = views(parts@).take(i + 1);
            assert(t.drop_last() =~= views(parts@).take(i as int));
            if i == 0 {
                assert(t.len() == 1);
            }
        }
        i = i + 1;
    }
    assert(views(parts@).take(parts@.len() as int) =~= views(parts@));
    r
}

// ---------------------------------------------------------------------------
// Decimal numbers
// ---------------------------------------------------------------------------

pub open spec fn all_digits(s: Seq<char>) -> bool {
    forall|i: int| 0 <= i < s.len() ==> is_digit(#[trigger] s[i])
}

/// The value of a string of decimal digits.
pub open spec fn digits_value(s: Seq<char>) -> nat
    decreases s.len(),
{
    if s.len() == 0 {
        0
    } else {
        digits_value(s.drop_last()) * 10 + digit_val(s.last())
    }
}

/// What `str::parse` gives for an unsigned integer type whose largest value
/// is `max`: an optional `+`, then one or more ASCII digits, the value at most `max`.
pub open spec fn parse_uint(s: Seq<char>, max: nat) -> Option<nat> {
    let d = if s.len() > 0 && s[0] == '+' {
        s.drop_first()
    } else {
        s
    };
    if d.len() > 0 && all_digits(d) && digits_value(d) <= max {
        Some(digits_value(d))
    } else {
        None
    }
}

/// `n` written in decimal, without leading zeros.
pub open spec fn decimal(n: nat) -> Seq<char>
    decreases n,
{
    if n < 10 {
        seq![digit_char(n)]
    } else {
        decimal(n / 10).push(digit_char(n % 10))
    }
}

proof fn lemma_digits_value_mono(s: Seq<char>, i: int)
    requires
        0 <= i <= s.len(),
        all_digits(s),
    ensures
        digits_value(s.take(i)) <= digits_value(s),
    decreases s.len() - i,
{
    if i < s.len() {
        lemma_digits_value_mono(s, i + 1);
        assert(s.take(i + 1).drop_last() =~= s.take(i));
    } else {
        assert(s.take(i) =~= s);
    }
}

/// Parses `v` as `str::parse` does for an unsigned type whose largest value is `max`.
#[verifier::spinoff_prover]
#[verifier::rlimit(40)]
pub fn parse_uint_chars(v: &Vec<char>, max: u64) -> (r: Option<u64>)
    ensures
        r matches Some(n) ==> parse_uint(v@, max as nat) == Some(n as nat),
        r is None ==> parse_uint(v@, max as nat) is None,
{
    let n = v.len();
    let start: usize = if n > 0 && v[0] == '+' {
        1
    } else {
        0
    };
    let ghost d = if v@.len() > 0 && v@[0] == '+' {
        v@.drop_first()
    } else {
        v@
    };
    assert(d =~= v@.skip(start as int));
    if start >= n {
        return None;
    }
    let mut acc: u64 = 0;
    let mut i: usize = start;
    while i < n
        invariant
            start <= i <= n,
            n == v@.len(),
            d == v@.skip(start as int),
            d == (if v@.len() > 0 && v@[0] == '+' {
                v@.drop_first()
            } else {
                v@
            }),
            start < n,
            acc <= max,
            forall|k: int| 0 <= k < i - start ==> is_digit(#[trigger] d[k]),
            acc as nat == digits_value(d.take(i - start)),
        decreases n - i,
    {
        let c = v[i];
        assert(c == d[i - start]);
        let cn: u32 = c as u32;
        if cn < 48 || cn > 57 {
            assert(!is_digit(d[i - start]));
            return None;
        }
        let dv: u64 = (cn - 48) as u64;
        proof {
            assert(d.take(i - start + 1).drop_last() =~= d.take(i - start));
            assert(d.take(i - start + 1).last() == c);
        }
        let next: u128 = acc as u128 * 10 + dv as u128;
        if next > max as u128 {
            let ghost full_digits = all_digits(d);
            proof {
                if full_digits {
                    lemma_digits_value_mono(d, i - start + 1);
                }
            }
            return None;
        }
        acc = next as u64;
        i = i + 1;
    }
    assert(d.take(n - start) =~= d);
    Some(acc)
}

/// `s.parse::<u32>()` with the error mapped to `None`.
pub fn parse_u32(v: &Vec<char>) -> (r: Option<u32>)
    ensures
        r matches Some(n) ==> parse_uint(v@, u32::MAX as nat) == Some(n as nat),
        r is None ==> parse_uint(v@, u32::MAX as nat) is None,
{
    match parse_uint_chars(v, 0xffff_ffff) {
        Some(n) => Some(n as u32),
        None => None,
    }
}

/// `n` in decimal.
pub fn decimal_chars(n: u64) -> (r: Vec<char>)
    ensures
        r@ == decimal(n as nat),
    decreases n,
{
    let d: u64 = n % 10;
    let c = char_from_ascii((48 + d) as u32);
    if n < 10 {
        let mut r: Vec<char> = Vec::new();
        r.push(c);
        assert(r@ =~= seq![digit_char(n as nat)]);
        r
    } else {
        let mut r = decimal_chars(n / 10);
        r.push(c);
        r
    }
}

proof fn lemma_digit_char(d: nat)
    requires
        d < 10,
    ensures
        digit_char(d) as u32 == 48 + d,
        is_digit(digit_char(d)),
        digit_val(digit_char(d)) == d,
{
    let n: u32 = (48 + d) as u32;
    let b: u8 = n as u8;
    let c: char = b as char;
    assert(c as u32 == n);
    vstd::utf8::char_u32_cast(c, n);
}

/// A number written in decimal is a non-empty run of digits whose value is
/// the number.
pub proof fn lemma_decimal(n: nat)
    ensures
        decimal(n).len() > 0,
        all_digits(decimal(n)),
        digits_value(decimal(n)) == n,
    decreases n,
{
    if n < 10 {
        lemma_digit_char(n);
        let s = seq![digit_char(n)];
        assert(s.drop_last() =~= Seq::<char>::empty());
        assert(digits_value(s.drop_last()) == 0);
        assert(digits_value(s) == digit_val(s.last()));
    } else {
        lemma_decimal(n / 10);
        lemma_digit_char(n % 10);
        let s = decimal(n / 10).push(digit_char(n % 10));
        assert(s.drop_last() =~= decimal(n / 10));
        assert(digits_value(s) == digits_value(decimal(n / 10)) * 10 + digit_val(digit_char(n % 10)));
    }
}

/// One written in decimal.
pub proof fn lemma_decimal_one()
    ensures
        decimal(1) == seq!['1'],
{
    lemma_digit_char(1);
    assert('1' as u32 == 49);
    vstd::utf8::char_u32_cast('1', 49);
    assert(decimal(1) =~= seq!['1']);
}

/// A number under a hundred written in decimal: one digit below ten, else
/// its tens digit then its units digit; the digit zero is `'0'`.
pub proof fn lemma_decimal_below_hundred(m: nat)
    requires
        m < 100,
    ensures
        digit_char(0) == '0',
        m < 10 ==> decimal(m) == seq![digit_char(m)],
        10 <= m ==> decimal(m) == seq![digit_char(m / 10), digit_char(m % 10)],
{
    assert('0' as u32 == 48);
    vstd::utf8::char_u32_cast('0', 48);
    if 10 <= m {
        assert(m / 10 < 10);
        assert(decimal(m / 10) == seq![digit_char(m / 10)]);
        assert(decimal(m) =~= seq![digit_char(m / 10), digit_char(m % 10)]);
    }
}

/// Parsing a number written in decimal gives the number back, where it fits.
pub proof fn lemma_parse_decimal(n: nat, max: nat)
    requires
        n <= max,
    ensures
        parse_uint(decimal(n), max) == Some(n),
{
    lemma_decimal(n);
    assert(is_digit(decimal(n)[0]));
}

} // verus!

verus! {

// ---------------------------------------------------------------------------
// Equality and optional strings
// ---------------------------------------------------------------------------

/// The view of an optional string.
pub open spec fn ov(o: Option<String>) -> Option<Seq<char>> {
    match o {
        Some(s) => Some(s@),
        None => None,
    }
}

/// The characters of an optional string, or none.
pub open spec fn or_empty(o: Option<String>) -> Seq<char> {
    match o {
        Some(s) => s@,
        None => Seq::empty(),
    }
}

pub fn chars_eq(a: &Vec<char>, b: &Vec<char>) -> (r: bool)
    ensures
        r == (a@ == b@),
{
    if a.len() != b.len() {
        return false;
    }
    let mut i: usize = 0;
    while i < a.len()
        invariant
            a@.len() == b@.len(),
            i <= a@.len(),
            forall|j: int| 0 <= j < i ==> a@[j] == b@[j],
        decreases a@.len() - i,
    {
        if a[i] != b[i] {
            return false;
        }
        i = i + 1;
    }
    assert(a@ =~= b@);
    true
}

/// Whether two strings hold the same characters.
pub fn str_eq(a: &str, b: &str) -> (r: bool)
    ensures
        r == (a@ == b@),
{
    let x = to_chars(a);
    let y = to_chars(b);
    chars_eq(&x, &y)
}

/// Whether `o` is `Some` of a string equal to `lit`.
pub fn opt_is(o: &Option<String>, lit: &str) -> (r: bool)
    ensures
        r == (ov(*o) == Some(lit@)),
{
    match o {
        Some(s) => str_eq(s.as_str(), lit),
        None => false,
    }
}

/// The string in `o`, or an empty string.
pub fn clone_or_empty(o: &Option<String>) -> (r: String)
    ensures
        r@ == or_empty(*o),
{
    match o {
        Some(s) => s.clone(),
        None => String::new(),
    }
}

/// Ties an optional string to its view.
pub fn clone_opt(o: &Option<String>) -> (r: Option<String>)
    ensures
        ov(r) == ov(*o),
{
    match o {
        Some(s) => Some(s.clone()),
        None => None,
    }
}

// ---------------------------------------------------------------------------
// Unicode case mapping and classes, taken from std
// ---------------------------------------------------------------------------

/// What `char::to_uppercase` yields for `c`.
pub uninterp spec fn char_upper(c: char) -> Seq<char>;

/// What `str::to_lowercase` gives for `s`.
pub uninterp spec fn str_lower(s: Seq<char>) -> Seq<char>;

/// Whether `c` has the Unicode `Alphabetic` property (`char::is_alphabetic`).
pub uninterp spec fn alphabetic(c: char) -> bool;

/// `char::to_uppercase`, collected into a string: at least one character
/// (a character without an upper case maps to itself).  For an ASCII
/// character the result is its ASCII upper case, as the Unicode tables that
/// std follows give it.
#[verifier::external_body]
pub(crate) fn upper_char(c: char) -> (r: String)
    ensures
        r@ == char_upper(c),
        r@.len() > 0,
        (c as u32) < 128 ==> r@ == seq![ascii_upper(c)],
{
    c.to_uppercase().collect()
}

/// Every character of `s` is ASCII.
pub open spec fn is_ascii_text(s: Seq<char>) -> bool {
    forall|i: int| 0 <= i < s.len() ==> (#[trigger] s[i] as u32) < 128
}

/// `s` with each ASCII letter in lower case.
pub open spec fn ascii_lower_text(s: Seq<char>) -> Seq<char> {
    s.map_values(|c: char| ascii_lower(c))
}

/// `str::to_lowercase`.  On ASCII text it maps each letter to its ASCII
/// lower case; no clause states the Unicode mapping beyond that.
#[verifier::external_body]
pub(crate) fn lower_str(s: &str) -> (r: String)
    ensures
        r@ == str_lower(s@),
        is_ascii_text(s@) ==> r@ == ascii_lower_text(s@),
{
    s.to_lowercase()
}

/// `char::is_alphabetic`.  Among ASCII characters exactly the letters are alphabetic.
#[verifier::external_body]
pub(crate) fn is_alphabetic(c: char) -> (r: bool)
    ensures
        r == alphabetic(c),
        (c as u32) < 128 ==> (r <==> (is_ascii_upper(c) || is_ascii_lower(c))),
{
    c.is_alphabetic()
}

/// `s` with its first character in upper case.
pub open spec fn titlecase(s: Seq<char>) -> Seq<char> {
    if s.len() == 0 {
        Seq::empty()
    } else {
        char_upper(s[0]) + s.drop_first()
    }
}

} // verus!

verus! {

/// The pieces of `ps` that are not empty, in order.
pub open spec fn keep_nonempty(ps: Seq<Seq<char>>) -> Seq<Seq<char>>
    decreases ps.len(),
{
    if ps.len() == 0 {
        Seq::empty()
    } else {
        let prev = keep_nonempty(ps.drop_last());
        if ps.last().len() > 0 {
            prev.push(ps.last())
        } else {
            prev
        }
    }
}

pub fn keep_nonempty_chars(ps: &Vec<Vec<char>>) -> (r: Vec<Vec<char>>)
    ensures
        views(r@) == keep_nonempty(views(ps@)),
{
    let mut r: Vec<Vec<char>> = Vec::new();
    let mut i: usize = 0;
    while i < ps.len()
        invariant
            i <= ps@.len(),
            views(r@) == keep_nonempty(views(ps@).take(i as int)),
        decreases ps@.len() - i,
    {
        let ghost before = r@;
        if ps[i].len() > 0 {
            r.push(ps[i].clone());
            assert(views(r@) =~= views(before).push(ps@[i as int]@));
        }
        assert(views(ps@).take(i + 1).drop_last() =~= views(ps@).take(i as int));
        i = i + 1;
    }
    assert(views(ps@).take(ps@.len() as int) =~= views(ps@));
    r
}

/// What `str::to_uppercase` gives for `s`.
pub uninterp spec fn str_upper(s: Seq<char>) -> Seq<char>;

/// `str::to_uppercase`.  On ASCII text it maps each letter to its ASCII upper case.
#[verifier::external_body]
pub(crate) fn upper_str(s: &str) -> (r: String)
    ensures
        r@ == str_upper(s@),
        (forall|i: int| 0 <= i < s@.len() ==> (#[trigger] s@[i] as u32) < 128) ==> r@
            == s@.map_values(|c: char| ascii_upper(c)),
{
    s.to_uppercase()
}

} // verus!

verus! {

// ---------------------------------------------------------------------------
// Ordering
// ---------------------------------------------------------------------------

/// `a` comes before `b` in the order of `String`'s `Ord`: lexicographic by
/// character, a proper prefix first.
pub open spec fn chars_lt(a: Seq<char>, b: Seq<char>) -> bool
    decreases a.len(),
{
    if a.len() == 0 {
        b.len() > 0
    } else if b.len() == 0 {
        false
    } else if a[0] != b[0] {
        (a[0] as u32) < (b[0] as u32)
    } else {
        chars_lt(a.drop_first(), b.drop_first())
    }
}

pub proof fn lemma_chars_lt_irreflexive(a: Seq<char>)
    ensures
        !chars_lt(a, a),
    decreases a.len(),
{
    if a.len() > 0 {
        lemma_chars_lt_irreflexive(a.drop_first());
    }
}

pub proof fn lemma_chars_lt_transitive(a: Seq<char>, b: Seq<char>, c: Seq<char>)
    requires
        chars_lt(a, b),
        chars_lt(b, c),
    ensures
        chars_lt(a, c),
    decreases a.len(),
{
    if a.len() > 0 && b.len() > 0 && c.len() > 0 && a[0] == b[0] && b[0] == c[0] {
        lemma_chars_lt_transitive(a.drop_first(), b.drop_first(), c.drop_first());
    }
}

pub proof fn lemma_chars_lt_total(a: Seq<char>, b: Seq<char>)
    ensures
        chars_lt(a, b) || chars_lt(b, a) || a == b,
    decreases a.len(),
{
    if a.len() > 0 && b.len() > 0 && a[0] == b[0] {
        lemma_chars_lt_total(a.drop_first(), b.drop_first());
        if a.drop_first() == b.drop_first() {
            assert(a =~= seq![a[0]] + a.drop_first());
            assert(b =~= seq![b[0]] + b.drop_first());
        }
    } else if a.len() == 0 && b.len() == 0 {
        assert(a =~= b);
    } else if a.len() > 0 && b.len() > 0 {
        let x = a[0];
        let y = b[0];
        vstd::utf8::char_u32_cast(x, x as u32);
        vstd::utf8::char_u32_cast(y, y as u32);
        assert((x as u32) != (y as u32));
    }
}

/// `String`'s `<` on the characters of two strings.
pub fn chars_less(a: &Vec<char>, b: &Vec<char>) -> (r: bool)
    ensures
        r == chars_lt(a@, b@),
{
    let mut i: usize = 0;
    assert(a@.skip(0) =~= a@);
    assert(b@.skip(0) =~= b@);
    loop
        invariant
            i <= a@.len(),
            i <= b@.len(),
            chars_lt(a@, b@) == chars_lt(a@.skip(i as int), b@.skip(i as int)),
        decreases a@.len() - i,
    {
        let ghost sa = a@.skip(i as int);
        let ghost sb = b@.skip(i as int);
        if i == a.len() {
            return i < b.len();
        }
        if i == b.len() {
            return false;
        }
        assert(sa[0] == a@[i as int]);
        assert(sb[0] == b@[i as int]);
        if a[i] != b[i] {
            let x: u32 = a[i] as u32;
            let y: u32 = b[i] as u32;
            return x < y;
        }
        assert(sa.drop_first() =~= a@.skip(i + 1));
        assert(sb.drop_first() =~= b@.skip(i + 1));
        i = i + 1;
    }
}

} // verus!

verus! {

// ---------------------------------------------------------------------------
// Prefixes, byte offsets
// ---------------------------------------------------------------------------

/// `s` without any of its leading copies of `pat` (`str::trim_start_matches` with a `&str`).
pub open spec fn strip_all_prefix(s: Seq<char>, pat: Seq<char>) -> Seq<char>
    decreases s.len(),
{
    if pat.len() > 0 && pat.len() <= s.len() && s.take(pat.len() as int) == pat {
        strip_all_prefix(s.skip(pat.len() as int), pat)
    } else {
        s
    }
}

pub fn starts_with_at(v: &Vec<char>, pat: &Vec<char>, at: usize) -> (r: bool)
    requires
        at <= v@.len(),
    ensures
        r == (pat@.len() <= v@.len() - at && v@.skip(at as int).take(pat@.len() as int) == pat@),
{
    if pat.len() > v.len() - at {
        return false;
    }
    let mut i: usize = 0;
    let n = v.len();
    while i < pat.len()
        invariant
            n == v@.len(),
            at + pat@.len() <= v@.len(),
            i <= pat@.len(),
            forall|k: int| 0 <= k < i ==> v@[at + k] == pat@[k],
        decreases pat@.len() - i,
    {
        if v[at + i] != pat[i] {
            assert(v@.skip(at as int).take(pat@.len() as int)[i as int] != pat@[i as int]);
            return false;
        }
        i = i + 1;
    }
    assert(v@.skip(at as int).take(pat@.len() as int) =~= pat@);
    true
}

pub fn strip_all_prefix_chars(v: &Vec<char>, pat: &Vec<char>) -> (r: Vec<char>)
    ensures
        r@ == strip_all_prefix(v@, pat@),
{
    let n = v.len();
    let mut i: usize = 0;
    assert(v@.skip(0) =~= v@);
    if pat.len() == 0 {
        return slice(v, 0, n);
    }
    while i < n && starts_with_at(v, pat, i)
        invariant
            n == v@.len(),
            i <= n,
            pat@.len() > 0,
            strip_all_prefix(v@, pat@) == strip_all_prefix(v@.skip(i as int), pat@),
        decreases n - i,
    {
        assert(v@.skip(i as int).skip(pat@.len() as int) =~= v@.skip(i + pat@.len()));
        i = i + pat.len();
    }
    assert(v@.skip(i as int) =~= v@.subrange(i as int, n as int));
    slice(v, i, n)
}

/// The number of bytes in the UTF-8 encoding of `c`.
pub open spec fn utf8_len(c: char) -> nat {
    let n = c as u32;
    if n < 0x80 {
        1
    } else if n < 0x800 {
        2
    } else if n < 0x10000 {
        3
    } else {
        4
    }
}

/// The number of bytes in the UTF-8 encoding of `s`.
pub open spec fn byte_len(s: Seq<char>) -> nat
    decreases s.len(),
{
    if s.len() == 0 {
        0
    } else {
        byte_len(s.drop_last()) + utf8_len(s.last())
    }
}

/// `i` characters of `s` take `b` bytes.
pub open spec fn at_byte(s: Seq<char>, i: int, b: int) -> bool {
    0 <= i <= s.len() && byte_len(s.take(i)) == b
}

/// What `str::get(a..b)` gives: the characters between byte offsets `a` and
/// `b`, where both fall on character boundaries and `a <= b`.
pub open spec fn byte_range(s: Seq<char>, a: int, b: int) -> Option<Seq<char>> {
    if a <= b && exists|i: int, j: int| at_byte(s, i, a) && at_byte(s, j, b) {
        let (i, j) = choose|i: int, j: int| at_byte(s, i, a) && at_byte(s, j, b);
        Some(s.subrange(i, j))
    } else {
        None
    }
}

proof fn lemma_byte_len_mono(s: Seq<char>, i: int, j: int)
    requires
        0 <= i <= j <= s.len(),
    ensures
        byte_len(s.take(i)) + (j - i) <= byte_len(s.take(j)),
    decreases j - i,
{
    if i < j {
        lemma_byte_len_mono(s, i, j - 1);
        assert(s.take(j).drop_last() =~= s.take(j - 1));
    }
}

proof fn lemma_at_byte_unique(s: Seq<char>, i: int, k: int, b: int)
    requires
        at_byte(s, i, b),
        at_byte(s, k, b),
    ensures
        i == k,
{
    if i < k {
        lemma_byte_len_mono(s, i, k);
    }
    if k < i {
        lemma_byte_len_mono(s, k, i);
    }
}

proof fn lemma_ascii_prefix_bytes(s: Seq<char>, k: int, i: int)
    requires
        0 <= i <= k <= s.len(),
        forall|j: int| 0 <= j < k ==> (#[trigger] s[j] as u32) < 128,
    ensures
        byte_len(s.take(i)) == i,
    decreases i,
{
    if i > 0 {
        lemma_ascii_prefix_bytes(s, k, i - 1);
        assert(s.take(i).drop_last() =~= s.take(i - 1));
        assert(s.take(i).last() == s[i - 1]);
    } else {
        assert(s.take(0) =~= Seq::<char>::empty());
    }
}

/// Within a prefix of ASCII characters, byte offsets are character offsets.
pub proof fn lemma_ascii_byte_range(s: Seq<char>, k: int, a: int, b: int)
    requires
        0 <= a <= b <= k <= s.len(),
        forall|j: int| 0 <= j < k ==> (#[trigger] s[j] as u32) < 128,
    ensures
        byte_range(s, a, b) == Some(s.subrange(a, b)),
{
    lemma_ascii_prefix_bytes(s, k, a);
    lemma_ascii_prefix_bytes(s, k, b);
    assert(at_byte(s, a, a) && at_byte(s, b, b));
    let (i, j) = choose|i: int, j: int| at_byte(s, i, a) && at_byte(s, j, b);
    lemma_at_byte_unique(s, i, a, a);
    lemma_at_byte_unique(s, j, b, b);
}

fn char_utf8_len(c: char) -> (r: usize)
    ensures
        r == utf8_len(c),
{
    let n: u32 = c as u32;
    if n < 0x80 {
        1
    } else if n < 0x800 {
        2
    } else if n < 0x10000 {
        3
    } else {
        4
    }
}

/// The number of characters of `v` that take exactly `b` bytes, if any.
fn chars_at_byte(v: &Vec<char>, b: usize) -> (r: Option<usize>)
    ensures
        r matches Some(i) ==> at_byte(v@, i as int, b as int),
        r is None ==> forall|i: int| !at_byte(v@, i, b as int),
{
    let mut i: usize = 0;
    let mut acc: u128 = 0;
    while i < v.len() && acc < b as u128
        invariant
            i <= v@.len(),
            acc == byte_len(v@.take(i as int)),
            acc <= b + 4,
            forall|k: int| 0 <= k < i ==> byte_len(v@.take(k)) < b,
        decreases v@.len() - i,
    {
        assert(v@.take(i + 1).drop_last() =~= v@.take(i as int));
        acc = acc + char_utf8_len(v[i]) as u128;
        i = i + 1;
    }
    if acc == b as u128 {
        Some(i)
    } else {
        proof {
            assert forall|k: int| !at_byte(v@, k, b as int) by {
                if 0 <= k <= v@.len() && byte_len(v@.take(k)) == b {
                    if k > i {
                        lemma_byte_len_mono(v@, i as int, k);
                    }
                }
            }
        }
        None
    }
}

/// `s.get(a..b)`, as characters.
pub fn get_byte_range(v: &Vec<char>, a: usize, b: usize) -> (r: Option<Vec<char>>)
    ensures
        r matches Some(w) ==> byte_range(v@, a as int, b as int) == Some(w@),
        r is None ==> byte_range(v@, a as int, b as int) is None,
{
    if a > b {
        return None;
    }
    match chars_at_byte(v, a) {
        None => None,
        Some(i) => match chars_at_byte(v, b) {
            None => None,
            Some(j) => {
                proof {
                    let (x, y) = choose|x: int, y: int| at_byte(v@, x, a as int) && at_byte(v@, y, b as int);
                    lemma_at_byte_unique(v@, x, i as int, a as int);
                    lemma_at_byte_unique(v@, y, j as int, b as int);
                    if j < i {
                        lemma_byte_len_mono(v@, j as int, i as int);
                    }
                }
                Some(slice(v, i, j))
            },
        },
    }
}

// ---------------------------------------------------------------------------
// Searching for a string
// ---------------------------------------------------------------------------

/// `pat` occurs in `s` at position `i`.
pub open spec fn occurs_at(s: Seq<char>, pat: Seq<char>, i: int) -> bool {
    0 <= i && i + pat.len() <= s.len() && s.subrange(i, i + pat.len()) == pat
}

/// The first position at or after `from` where `pat` occurs in `s`.
pub open spec fn find_str_from(s: Seq<char>, pat: Seq<char>, from: int) -> Option<int>
    decreases s.len() + 1 - from,
{
    if from < 0 || from + pat.len() > s.len() {
        None
    } else if occurs_at(s, pat, from) {
        Some(from)
    } else {
        find_str_from(s, pat, from + 1)
    }
}

/// The first position where `pat` occurs in `s` (`str::find` with a `&str`).
pub open spec fn find_str(s: Seq<char>, pat: Seq<char>) -> Option<int> {
    find_str_from(s, pat, 0)
}

/// The piece of `s` between the first and second occurrences of `pat`, or
/// from the first to the end (`s.split(pat).nth(1)`).
pub open spec fn second_piece(s: Seq<char>, pat: Seq<char>) -> Option<Seq<char>> {
    match find_str(s, pat) {
        Some(i) => {
            let rest = s.skip(i + pat.len());
            Some(
                match find_str(rest, pat) {
                    Some(j) => rest.take(j),
                    None => rest,
                },
            )
        },
        None => None,
    }
}

/// The piece of `s` before the first `c` (`s.split(c).next()`).
pub open spec fn first_piece(s: Seq<char>, c: char) -> Seq<char> {
    match find(s, c) {
        Some(i) => s.take(i),
        None => s,
    }
}

pub proof fn lemma_find_str_from_bounds(s: Seq<char>, pat: Seq<char>, from: int)
    ensures
        find_str_from(s, pat, from) matches Some(i) ==> from <= i && occurs_at(s, pat, i),
    decreases s.len() + 1 - from,
{
    if !(from < 0 || from + pat.len() > s.len()) && !occurs_at(s, pat, from) {
        lemma_find_str_from_bounds(s, pat, from + 1);
    }
}

fn occurs_at_chars(v: &Vec<char>, pat: &Vec<char>, i: usize) -> (r: bool)
    requires
        i + pat@.len() <= v@.len(),
    ensures
        r == occurs_at(v@, pat@, i as int),
{
    let n = v.len();
    let mut k: usize = 0;
    while k < pat.len()
        invariant
            k <= pat@.len(),
            n == v@.len(),
            i + pat@.len() <= v@.len(),
            forall|q: int| 0 <= q < k ==> v@[i + q] == pat@[q],
        decreases pat@.len() - k,
    {
        assert(i + k < v@.len());
        if v[i + k] != pat[k] {
            assert(v@.subrange(i as int, i + pat@.len())[k as int] != pat@[k as int]);
            return false;
        }
        k = k + 1;
    }
    assert(v@.subrange(i as int, i + pat@.len()) =~= pat@);
    true
}

/// The first position where `pat` occurs in `v`.
pub fn find_str_chars(v: &Vec<char>, pat: &Vec<char>) -> (r: Option<usize>)
    ensures
        r matches Some(i) ==> find_str(v@, pat@) == Some(i as int),
        r is None ==> find_str(v@, pat@) is None,
{
    let mut i: usize = 0;
    if pat.len() > v.len() {
        return None;
    }
    if pat.len() == 0 {
        assert(v@.subrange(0, 0) =~= pat@);
        return Some(0);
    }
    let last = v.len() - pat.len();
    while i <= last
        invariant
            last < usize::MAX,
            pat@.len() <= v@.len(),
            last == v@.len() - pat@.len(),
            i <= last + 1,
            find_str(v@, pat@) == find_str_from(v@, pat@, i as int),
        decreases last + 1 - i,
    {
        if occurs_at_chars(v, pat, i) {
            return Some(i);
        }
        i = i + 1;
    }
    None
}

/// `s.split(pat).nth(1)`, as characters.
pub fn second_piece_chars(v: &Vec<char>, pat: &Vec<char>) -> (r: Option<Vec<char>>)
    ensures
        r matches Some(w) ==> second_piece(v@, pat@) == Some(w@),
        r is None ==> second_piece(v@, pat@) is None,
{
    match find_str_chars(v, pat) {
        None => None,
        Some(i) => {
            proof {
                lemma_find_str_from_bounds(v@, pat@, 0);
            }
            let n = v.len();
            assert(i + pat@.len() <= n);
            let rest = slice(v, i + pat.len(), n);
            assert(rest@ =~= v@.skip(i + pat@.len()));
            match find_str_chars(&rest, pat) {
                Some(j) => {
                    proof {
                        lemma_find_str_from_bounds(rest@, pat@, 0);
                    }
                    let piece = slice(&rest, 0, j);
                    assert(piece@ =~= rest@.take(j as int));
                    Some(piece)
                },
                None => Some(rest),
            }
        },
    }
}

/// `s.split(c).next()`, as characters.
pub fn first_piece_chars(v: &Vec<char>, c: char) -> (r: Vec<char>)
    ensures
        r@ == first_piece(v@, c),
{
    match find_char(v, c) {
        Some(i) => {
            proof {
                lemma_find_bounds(v@, c);
            }
            let r = slice(v, 0, i);
            assert(r@ =~= v@.take(i as int));
            r
        },
        None => v.clone(),
    }
}

/// The trimmed pieces.
pub open spec fn trim_each(ps: Seq<Seq<char>>) -> Seq<Seq<char>> {
    ps.map_values(|p: Seq<char>| trim(p))
}

pub fn trim_each_chars(ps: &Vec<Vec<char>>) -> (r: Vec<Vec<char>>)
    ensures
        views(r@) == trim_each(views(ps@)),
{
    let mut r: Vec<Vec<char>> = Vec::new();
    let mut i: usize = 0;
    while i < ps.len()
        invariant
            i <= ps@.len(),
            views(r@) == trim_each(views(ps@)).take(i as int),
        decreases ps@.len() - i,
    {
        let ghost before = r@;
        r.push(trim_chars(&ps[i]));
        assert(views(r@) =~= views(before).push(trim(ps@[i as int]@)));
        assert(trim_each(views(ps@))[i as int] == trim(views(ps@)[i as int]));
        assert(trim_each(views(ps@)).take(i + 1) =~= trim_each(views(ps@)).take(i as int).push(
            trim_each(views(ps@))[i as int],
        ));
        i = i + 1;
    }
    assert(trim_each(views(ps@)).take(ps@.len() as int) =~= trim_each(views(ps@)));
    r
}

/// The non-empty trimmed pieces of `s` between commas.
pub open spec fn comma_items(s: Seq<char>) -> Seq<Seq<char>> {
    keep_nonempty(trim_each(split(s, ',')))
}

/// Splitting a text joined at a separator splits each side.
pub proof fn lemma_split_join(a: Seq<char>, b: Seq<char>, c: char)
    ensures
        split(a + seq![c] + b, c) == split(a, c) + split(b, c),
    decreases a.len(),
{
    let s = a + seq![c] + b;
    lemma_find_bounds(a, c);
    match find(a, c) {
        Some(i) => {
            assert forall|j: int| 0 <= j < i implies s[j] != c by {
                assert(s[j] == a[j]);
            }
            assert(s[i] == a[i]);
            lemma_find_some(s, c, i);
            let rest = a.skip(i + 1);
            lemma_split_join(rest, b, c);
            assert(s.take(i) =~= a.take(i));
            assert(s.skip(i + 1) =~= rest + seq![c] + b);
            assert(split(s, c) =~= seq![a.take(i)] + (split(rest, c) + split(b, c)));
            assert(split(a, c) == seq![a.take(i)] + split(rest, c));
            assert(split(s, c) =~= split(a, c) + split(b, c));
        },
        None => {
            assert forall|j: int| 0 <= j < a.len() implies s[j] != c by {
                assert(s[j] == a[j]);
                assert(a.contains(a[j]));
            }
            assert(s[a.len() as int] == c);
            lemma_find_some(s, c, a.len() as int);
            assert(s.take(a.len() as int) =~= a);
            assert(s.skip(a.len() + 1int) =~= b);
            assert(split(s, c) =~= seq![a] + split(b, c));
        },
    }
}

/// Keeping the non-empty items of two lists put end to end keeps those of
/// each, in order.
pub proof fn lemma_keep_nonempty_concat(x: Seq<Seq<char>>, y: Seq<Seq<char>>)
    ensures
        keep_nonempty(x + y) == keep_nonempty(x) + keep_nonempty(y),
    decreases y.len(),
{
    if y.len() == 0 {
        assert(x + y =~= x);
        assert(keep_nonempty(x) + keep_nonempty(y) =~= keep_nonempty(x));
    } else {
        lemma_keep_nonempty_concat(x, y.drop_last());
        assert((x + y).drop_last() =~= x + y.drop_last());
        assert((x + y).last() == y.last());
        if y.last().len() > 0 {
            assert(keep_nonempty(x) + keep_nonempty(y) =~= (keep_nonempty(x) + keep_nonempty(y.drop_last())).push(
                y.last(),
            ));
        }
    }
}

/// Joining an item put in front of a list: the item alone where the list is
/// empty, else the item, the separator and the join of the list.
pub proof fn lemma_join_prepend(x: Seq<char>, ys: Seq<Seq<char>>, sep: Seq<char>)
    ensures
        join(seq![x] + ys, sep) == (if ys.len() == 0 {
            x
        } else {
            x + sep + join(ys, sep)
        }),
    decreases ys.len(),
{
    let all = seq![x] + ys;
    if ys.len() == 0 {
        assert(all =~= seq![x]);
    } else if ys.len() == 1 {
        assert(all.drop_last() =~= seq![x]);
        assert(all.last() == ys[0]);
    } else {
        lemma_join_prepend(x, ys.drop_last(), sep);
        assert(all.drop_last() =~= seq![x] + ys.drop_last());
        assert(all.last() == ys.last());
        assert(join(all, sep) == join(all.drop_last(), sep) + sep + ys.last());
        assert(join(ys, sep) == join(ys.drop_last(), sep) + sep + ys.last());
        assert(x + sep + join(ys.drop_last(), sep) + sep + ys.last() =~= x + sep + (join(ys.drop_last(), sep) + sep + ys.last()));
    }
}

/// The items of two comma-separated lists joined by a comma are the items
/// of the first, then those of the second.
pub proof fn lemma_comma_items_join(a: Seq<char>, b: Seq<char>)
    ensures
        comma_items(a + seq![','] + b) == comma_items(a) + comma_items(b),
{
    lemma_split_join(a, b, ',');
    let x = split(a, ',');
    let y = split(b, ',');
    assert(trim_each(x + y) =~= trim_each(x) + trim_each(y));
    lemma_keep_nonempty_concat(trim_each(x), trim_each(y));
}

proof fn lemma_keep_nonempty(ps: Seq<Seq<char>>)
    ensures
        forall|i: int|
            0 <= i < keep_nonempty(ps).len() ==> (#[trigger] keep_nonempty(ps)[i]).len() > 0
                && ps.contains(keep_nonempty(ps)[i]),
    decreases ps.len(),
{
    if ps.len() > 0 {
        let init = ps.drop_last();
        lemma_keep_nonempty(init);
        let prev = keep_nonempty(init);
        assert forall|i: int| 0 <= i < prev.len() implies ps.contains(#[trigger] prev[i]) by {
            let k = choose|k: int| 0 <= k < init.len() && init[k] == prev[i];
            assert(ps[k] == prev[i]);
        }
        assert(ps[ps.len() - 1] == ps.last());
    }
}

/// The items of a comma-separated list are never empty and never carry
/// surrounding white space.
pub proof fn lemma_comma_items_trimmed(s: Seq<char>)
    ensures
        forall|i: int|
            0 <= i < comma_items(s).len() ==> (#[trigger] comma_items(s)[i]).len() > 0 && trim(
                comma_items(s)[i],
            ) == comma_items(s)[i],
{
    let ps = trim_each(split(s, ','));
    lemma_keep_nonempty(ps);
    assert forall|i: int| 0 <= i < comma_items(s).len() implies trim(#[trigger] comma_items(s)[i])
        == comma_items(s)[i] by {
        let x = comma_items(s)[i];
        assert(keep_nonempty(ps)[i] == x);
        let k = choose|k: int| 0 <= k < ps.len() && ps[k] == x;
        lemma_trim_twice(split(s, ',')[k]);
    }
}

pub fn comma_items_chars(s: &str) -> (r: Vec<Vec<char>>)
    ensures
        views(r@) == comma_items(s@),
{
    let v = to_chars(s);
    let parts = split_char(&v, ',');
    let trimmed_parts = trim_each_chars(&parts);
    keep_nonempty_chars(&trimmed_parts)
}

// ---------------------------------------------------------------------------
// Stable ordering by key
// ---------------------------------------------------------------------------

/// Position `x` is ordered before position `y` by key, ties by position.
pub open spec fn key_before(keys: Seq<Vec<char>>, x: int, y: int) -> bool {
    chars_lt(keys[x]@, keys[y]@) || (keys[x]@ == keys[y]@ && x < y)
}

/// The positions `0..keys.len()` ordered by `key_before`.
pub fn sort_order(keys: &Vec<Vec<char>>) -> (perm: Vec<usize>)
    ensures
        perm@.len() == keys@.len(),
        forall|k: int| 0 <= k < perm@.len() ==> (#[trigger] perm@[k]) < keys@.len(),
        forall|a: int, b: int| 0 <= a < b < perm@.len() ==> #[trigger] perm@[a] != #[trigger] perm@[b],
        forall|a: int, b: int|
            0 <= a < b < perm@.len() ==> key_before(
                keys@,
                #[trigger] perm@[a] as int,
                #[trigger] perm@[b] as int,
            ),
{
    let n = keys.len();
    let mut perm: Vec<usize> = Vec::new();
    let mut k: usize = 0;
    while k < n
        invariant
            k <= n,
            n == keys@.len(),
            perm@.len() == k,
            forall|q: int| 0 <= q < k ==> perm@[q] == q,
        decreases n - k,
    {
        perm.push(k);
        k = k + 1;
    }
    if n == 0 {
        return perm;
    }
    let mut i: usize = 1;
    while i < n
        invariant
            1 <= i <= n,
            n == keys@.len(),
            perm@.len() == n,
            forall|q: int| i <= q < n ==> perm@[q] == q,
            forall|q: int| 0 <= q < i ==> (#[trigger] perm@[q]) < i,
            forall|a: int, b: int| 0 <= a < b < n ==> #[trigger] perm@[a] != #[trigger] perm@[b],
            forall|a: int, b: int|
                0 <= a < b < i ==> key_before(keys@, #[trigger] perm@[a] as int, #[trigger] perm@[b] as int),
        decreases n - i,
    {
        let mut j: usize = i;
        while j > 0 && chars_less(&keys[perm[j]], &keys[perm[j - 1]])
            invariant
                0 <= j <= i < n,
                n == keys@.len(),
                perm@.len() == n,
                perm@[j as int] == i,
                forall|q: int| i < q < n ==> perm@[q] == q,
                forall|q: int| 0 <= q <= i ==> (#[trigger] perm@[q]) <= i,
                forall|a: int, b: int| 0 <= a < b < n ==> #[trigger] perm@[a] != #[trigger] perm@[b],
                forall|a: int, b: int|
                    0 <= a < b <= i && a != j && b != j ==> key_before(
                        keys@,
                        #[trigger] perm@[a] as int,
                        #[trigger] perm@[b] as int,
                    ),
                forall|b: int| j < b <= i ==> chars_lt(keys@[i as int]@, keys@[#[trigger] perm@[b] as int]@),
            decreases j,
        {
            let x = perm[j];
            let y = perm[j - 1];
            perm.set(j, y);
            perm.set(j - 1, x);
            j = j - 1;
        }
        proof {
            let p = perm@;
            assert forall|a: int, b: int| 0 <= a < b <= i implies key_before(
                keys@,
                #[trigger] p[a] as int,
                #[trigger] p[b] as int,
            ) by {
                if b == j {
                    // a precedes the inserted key
                    let pj1 = p[j - 1] as int;
                    assert(!chars_lt(keys@[i as int]@, keys@[pj1]@));
                    lemma_chars_lt_total(keys@[i as int]@, keys@[pj1]@);
                    assert(p[a] != p[j as int]);
                    if a == j - 1 {
                        if keys@[pj1]@ == keys@[i as int]@ {
                            assert(p[a] < i);
                        }
                    } else {
                        assert(key_before(keys@, p[a] as int, pj1));
                        let ka = keys@[p[a] as int]@;
                        let kb = keys@[pj1]@;
                        let ki = keys@[i as int]@;
                        if chars_lt(ka, kb) {
                            if chars_lt(kb, ki) {
                                lemma_chars_lt_transitive(ka, kb, ki);
                            }
                        } else {
                            if kb == ki {
                                assert(p[a] < i);
                            }
                        }
                    }
                } else if a == j {
                    assert(chars_lt(keys@[i as int]@, keys@[p[b] as int]@));
                }
            }
            assert forall|q: int| 0 <= q < i + 1 implies (#[trigger] p[q]) < i + 1 by {
            }
        }
        i = i + 1;
    }
    perm
}

// ---------------------------------------------------------------------------
// Words
// ---------------------------------------------------------------------------

/// The number of characters before the first white space of `s`.
pub open spec fn word_len(s: Seq<char>) -> nat
    decreases s.len(),
{
    if s.len() == 0 || is_ws(s[0]) {
        0
    } else {
        1 + word_len(s.drop_first())
    }
}

/// The pieces of `s` between runs of white space (`str::split_whitespace`).
pub open spec fn words(s: Seq<char>) -> Seq<Seq<char>>
    decreases s.len(),
{
    if s.len() == 0 {
        Seq::empty()
    } else if is_ws(s[0]) {
        words(s.drop_first())
    } else {
        proof {
            lemma_word_len_bounds(s);
        }
        seq![s.take(word_len(s) as int)] + words(s.skip(word_len(s) as int))
    }
}

pub proof fn lemma_word_len_bounds(s: Seq<char>)
    ensures
        word_len(s) <= s.len(),
        s.len() > 0 && !is_ws(s[0]) ==> word_len(s) >= 1,
    decreases s.len(),
{
    if s.len() > 0 && !is_ws(s[0]) {
        lemma_word_len_bounds(s.drop_first());
    }
}

/// The words of `v`, as `str::split_whitespace` gives them.
pub fn words_chars(v: &Vec<char>) -> (r: Vec<Vec<char>>)
    ensures
        views(r@) == words(v@),
{
    let n = v.len();
    let mut out: Vec<Vec<char>> = Vec::new();
    let mut i: usize = 0;
    assert(v@.skip(0) =~= v@);
    while i < n
        invariant
            n == v@.len(),
            i <= n,
            words(v@) == views(out@) + words(v@.skip(i as int)),
        decreases n - i,
    {
        let ghost rest = v@.skip(i as int);
        if is_whitespace(v[i]) {
            assert(rest[0] == v@[i as int]);
            assert(rest.drop_first() =~= v@.skip(i + 1));
            i = i + 1;
        } else {
            assert(rest[0] == v@[i as int]);
            let mut j: usize = i;
            assert(v@.skip(j as int) =~= rest);
            while j < n && !is_whitespace(v[j])
                invariant
                    n == v@.len(),
                    i <= j <= n,
                    rest == v@.skip(i as int),
                    word_len(rest) == (j - i) + word_len(v@.skip(j as int)),
                decreases n - j,
            {
                let ghost r2 = v@.skip(j as int);
                assert(r2[0] == v@[j as int]);
                assert(r2.drop_first() =~= v@.skip(j + 1));
                j = j + 1;
            }
            proof {
                let r2 = v@.skip(j as int);
                if j < n {
                    assert(r2[0] == v@[j as int]);
                }
                assert(word_len(r2) == 0);
                lemma_word_len_bounds(rest);
                assert(rest.take(word_len(rest) as int) =~= v@.subrange(i as int, j as int));
                assert(rest.skip(word_len(rest) as int) =~= v@.skip(j as int));
            }
            let w = slice(v, i, j);
            let ghost before = out@;
            out.push(w);
            assert(views(out@) =~= views(before).push(w@));
            assert(views(before) + words(rest) =~= views(out@) + words(v@.skip(j as int)));
            i = j;
        }
    }
    assert(views(out@) + words(v@.skip(n as int)) =~= views(out@));
    out
}

} // verus!
