use vstd::prelude::*;

verus! {

/// ASCII whitespace, as splitting and trimming treat it.
pub open spec fn is_space(c: u8) -> bool {
    c == 32 || (9 <= c && c <= 13)
}

pub open spec fn is_digit(c: u8) -> bool {
    48 <= c && c <= 57
}

pub open spec fn all_digits(s: Seq<u8>) -> bool {
    forall|i: int| 0 <= i < s.len() ==> is_digit(#[trigger] s[i])
}

/// The number that decimal digits spell.
pub open spec fn digits_value(s: Seq<u8>) -> int
    decreases s.len(),
{
    if s.len() == 0 {
        0
    } else {
        digits_value(s.drop_last()) * 10 + (s.last() - 48)
    }
}

/// Whether `pat` occurs in `s` starting at `i`.
pub open spec fn has_at(s: Seq<u8>, pat: Seq<u8>, i: int) -> bool {
    0 <= i && i + pat.len() <= s.len() && s.subrange(i, i + pat.len()) == pat
}

pub open spec fn contains(s: Seq<u8>, pat: Seq<u8>) -> bool {
    exists|i: int| has_at(s, pat, i)
}

/// The first index at or after `from` that holds `c`, or the length.
pub open spec fn find_byte(s: Seq<u8>, c: u8, from: int) -> int
    decreases s.len() - from,
{
    if from >= s.len() || from < 0 {
        s.len() as int
    } else if s[from] == c {
        from
    } else {
        find_byte(s, c, from + 1)
    }
}

pub open spec fn trim_start(s: Seq<u8>) -> Seq<u8>
    decreases s.len(),
{
    if s.len() > 0 && is_space(s[0]) {
        trim_start(s.drop_first())
    } else {
        s
    }
}

pub open spec fn trim_end(s: Seq<u8>) -> Seq<u8>
    decreases s.len(),
{
    if s.len() > 0 && is_space(s.last()) {
        trim_end(s.drop_last())
    } else {
        s
    }
}

/// `s` without whitespace at either end.
pub open spec fn trim(s: Seq<u8>) -> Seq<u8> {
    trim_end(trim_start(s))
}

/// Thousandths that the digits after a decimal point give: the first three
/// count, later ones are dropped.
pub open spec fn frac_milli(f: Seq<u8>) -> int {
    if f.len() >= 3 {
        digits_value(f.subrange(0, 3))
    } else if f.len() == 2 {
        digits_value(f) * 10
    } else if f.len() == 1 {
        digits_value(f) * 100
    } else {
        0
    }
}

/// A decimal number (optional sign, digits, optional point and digits, at
/// least one digit) in thousandths, cut after the third decimal.
pub open spec fn parse_milli(t: Seq<u8>) -> Option<int> {
    let signed = t.len() > 0 && (t[0] == 43 || t[0] == 45);
    let body = if signed { t.drop_first() } else { t };
    let d = find_byte(body, 46, 0);
    let ip = body.subrange(0, d);
    let fp = if d < body.len() { body.subrange(d + 1, body.len() as int) } else { Seq::empty() };
    if all_digits(ip) && all_digits(fp) && ip.len() + fp.len() > 0 {
        let m = digits_value(ip) * 1000 + frac_milli(fp);
        Some(if signed && t[0] == 45 { -m } else { m })
    } else {
        None
    }
}

/// Lowest and highest plausible CPU temperatures, both excluded, in thousandths.
pub const SANE_LOW: i32 = 20000;
pub const SANE_HIGH: i32 = 120000;

pub open spec fn sane(c: int) -> bool {
    SANE_LOW < c < SANE_HIGH
}

/// A raw reading in thousandths of a degree: values over a thousand degrees
/// are taken as given in thousandths already.
pub open spec fn raw_value(t: Seq<u8>) -> Option<int> {
    match parse_milli(t) {
        Some(m) => {
            let c = if m > 1000000 { m / 1000 } else { m };
            if sane(c) { Some(c) } else { None }
        },
        None => None,
    }
}

/// A reading of the plain report, in thousandths of a degree.
pub open spec fn plain_value(t: Seq<u8>) -> Option<int> {
    match parse_milli(t) {
        Some(m) => if sane(m) { Some(m) } else { None },
        None => None,
    }
}

/// The first reading in the lines of `b` from `i` on, read as lines of the
/// plain report (`plain`) or of the raw one.
pub open spec fn first_reading(b: Seq<u8>, i: int, plain: bool) -> Option<int>
    decreases b.len() - i,
{
    let e = find_byte(b, 10, i);
    if i < 0 || i >= b.len() || e < i || e > b.len() {
        None
    } else {
        match line_reading(b.subrange(i, e), plain) {
            Some(v) => Some(v),
            None => if e < b.len() { first_reading(b, e + 1, plain) } else { None },
        }
    }
}

pub open spec fn line_reading(l: Seq<u8>, plain: bool) -> Option<int> {
    if plain {
        plain_line_reading(l)
    } else {
        raw_line_reading(l)
    }
}

/// The first index at or after `from` that holds whitespace, or the length.
pub open spec fn token_end(s: Seq<u8>, from: int) -> int
    decreases s.len() - from,
{
    if from >= s.len() || from < 0 {
        s.len() as int
    } else if is_space(s[from]) {
        from
    } else {
        token_end(s, from + 1)
    }
}

/// The first index at or after `from` that holds no whitespace, or the length.
pub open spec fn skip_spaces(s: Seq<u8>, from: int) -> int
    decreases s.len() - from,
{
    if from >= s.len() || from < 0 {
        s.len() as int
    } else if !is_space(s[from]) {
        from
    } else {
        skip_spaces(s, from + 1)
    }
}

/// "_input:"
pub open spec fn input_tag() -> Seq<u8> {
    seq![95u8, 105, 110, 112, 117, 116, 58]
}

/// The degree-Celsius sign, as UTF-8.
pub open spec fn degree_c() -> Seq<u8> {
    seq![0xc2u8, 0xb0, 67]
}

/// Whether a line of the raw report names a CPU sensor: "core", "package",
/// "cpu" or "tctl".
pub open spec fn names_cpu_raw(l: Seq<u8>) -> bool {
    contains(l, seq![99u8, 111, 114, 101]) || contains(l, seq![112u8, 97, 99, 107, 97, 103, 101])
        || contains(l, seq![99u8, 112, 117]) || contains(l, seq![116u8, 99, 116, 108])
}

/// Whether a line of the plain report names a CPU sensor: "Core", "Package",
/// "CPU" or "Tctl".
pub open spec fn names_cpu_plain(l: Seq<u8>) -> bool {
    contains(l, seq![67u8, 111, 114, 101]) || contains(l, seq![80u8, 97, 99, 107, 97, 103, 101])
        || contains(l, seq![67u8, 80, 85]) || contains(l, seq![84u8, 99, 116, 108])
}

/// The reading a line of the raw report (`sensors -A -u`) gives: on an
/// input line of a CPU sensor, the text between its first and second colon.
pub open spec fn raw_line_reading(l: Seq<u8>) -> Option<int> {
    if contains(l, input_tag()) && names_cpu_raw(l) {
        let p = find_byte(l, 58, 0);
        if p < l.len() {
            raw_value(trim(l.subrange(p + 1, find_byte(l, 58, p + 1))))
        } else {
            None
        }
    } else {
        None
    }
}

/// The first whitespace-separated token at or after `i` that holds the
/// degree-Celsius sign: its start and end.
pub open spec fn marked_token(l: Seq<u8>, i: int) -> Option<(int, int)>
    decreases l.len() - i,
{
    let s = skip_spaces(l, i);
    let e = token_end(l, s);
    if i < 0 || s < i || s >= l.len() || e <= s || e > l.len() {
        None
    } else if contains(l.subrange(s, e), degree_c()) {
        Some((s, e))
    } else {
        marked_token(l, e)
    }
}

/// `t` without any degree-Celsius sign and without any '+'.
pub open spec fn strip_marks(t: Seq<u8>) -> Seq<u8>
    decreases t.len(),
{
    if t.len() == 0 {
        t
    } else if has_at(t, degree_c(), 0) {
        strip_marks(t.subrange(3, t.len() as int))
    } else if t[0] == 43 {
        strip_marks(t.drop_first())
    } else {
        seq![t[0]] + strip_marks(t.drop_first())
    }
}

/// The reading a line of the plain report (`sensors`) gives: on a line of a
/// CPU sensor, its first token with a degree sign, marks taken out.
pub open spec fn plain_line_reading(l: Seq<u8>) -> Option<int> {
    if names_cpu_plain(l) && contains(l, degree_c()) {
        match marked_token(l, 0) {
            Some((s, e)) => plain_value(strip_marks(l.subrange(s, e))),
            None => None,
        }
    } else {
        None
    }
}

proof fn lemma_find_byte_bounds(s: Seq<u8>, c: u8, from: int)
    requires
        0 <= from <= s.len(),
    ensures
        from <= find_byte(s, c, from) <= s.len(),
        find_byte(s, c, from) < s.len() ==> s[find_byte(s, c, from)] == c,
    decreases s.len() - from,
{
    if from < s.len() && s[from] != c {
        lemma_find_byte_bounds(s, c, from + 1);
    }
}

proof fn lemma_digits_monotone(s: Seq<u8>, k: int)
    requires
        0 <= k <= s.len(),
        all_digits(s),
    ensures
        digits_value(s) >= digits_value(s.subrange(0, k)),
        digits_value(s) >= 0,
    decreases s.len(),
{
    if s.len() > 0 {
        assert(all_digits(s.drop_last()));
        if k < s.len() {
            lemma_digits_monotone(s.drop_last(), k);
            assert(s.drop_last().subrange(0, k) =~= s.subrange(0, k));
        } else {
            lemma_digits_monotone(s.drop_last(), 0);
            assert(s.subrange(0, k) =~= s);
        }
    }
}

proof fn lemma_short_digits(s: Seq<u8>)
    requires
        all_digits(s),
        s.len() <= 3,
    ensures
        s.len() == 3 ==> digits_value(s) < 1000,
        s.len() == 2 ==> digits_value(s) < 100,
        s.len() == 1 ==> digits_value(s) < 10,
        s.len() == 0 ==> digits_value(s) == 0,
        digits_value(s) >= 0,
{
    reveal_with_fuel(digits_value, 4);
    if s.len() >= 1 {
        assert(is_digit(s[0]));
    }
    if s.len() >= 2 {
        assert(is_digit(s[1]));
        assert(s.drop_last().drop_last() =~= s.subrange(0, s.len() - 2));
    }
    if s.len() >= 3 {
        assert(is_digit(s[2]));
        assert(s.drop_last().drop_last().drop_last() =~= Seq::<u8>::empty());
    }
    if s.len() == 2 {
        assert(s.drop_last().drop_last() =~= Seq::<u8>::empty());
    }
    if s.len() == 1 {
        assert(s.drop_last() =~= Seq::<u8>::empty());
    }
}

/// The first index at or after `from` that holds `c`, or the length.
fn find_from(s: &[u8], c: u8, from: usize) -> (r: usize)
    requires
        from <= s@.len(),
    ensures
        r == find_byte(s@, c, from as int),
        from <= r <= s@.len(),
{
    proof {
        lemma_find_byte_bounds(s@, c, from as int);
    }
    let mut i = from;
    while i < s.len()
        invariant
            from <= i <= s@.len(),
            find_byte(s@, c, from as int) == find_byte(s@, c, i as int),
        decreases s@.len() - i,
    {
        if s[i] == c {
            return i;
        }
        i = i + 1;
    }
    i
}

/// A copy of `s[lo..hi]`.
fn copy_range(s: &[u8], lo: usize, hi: usize) -> (r: Vec<u8>)
    requires
        lo <= hi <= s@.len(),
    ensures
        r@ == s@.subrange(lo as int, hi as int),
{
    let mut r: Vec<u8> = Vec::new();
    let mut i = lo;
    while i < hi
        invariant
            lo <= i <= hi,
            hi <= s@.len(),
            r@ == s@.subrange(lo as int, i as int),
        decreases hi - i,
    {
        r.push(s[i]);
        i = i + 1;
        proof {
            assert(r@ =~= s@.subrange(lo as int, i as int));
        }
    }
    r
}

/// Whether `pat` occurs at `i` in `s`.
fn matches_at(s: &[u8], pat: &[u8], i: usize) -> (r: bool)
    ensures
        r == has_at(s@, pat@, i as int),
{
    if pat.len() > s.len() || i > s.len() - pat.len() {
        return false;
    }
    let n = s.len();
    let mut j: usize = 0;
    while j < pat.len()
        invariant
            n == s@.len(),
            j <= pat@.len(),
            i + pat@.len() <= s@.len(),
            forall|k: int| 0 <= k < j ==> s@[i + k] == pat@[k],
        decreases pat@.len() - j,
    {
        if s[i + j] != pat[j] {
            assert(s@.subrange(i as int, i + pat@.len())[j as int] != pat@[j as int]);
            return false;
        }
        j = j + 1;
    }
    assert(s@.subrange(i as int, i + pat@.len()) =~= pat@);
    true
}

/// Whether `pat` occurs anywhere in `s`.
fn contains_exec(s: &[u8], pat: &[u8]) -> (r: bool)
    ensures
        r == contains(s@, pat@),
{
    let mut i: usize = 0;
    while i < s.len()
        invariant
            i <= s@.len(),
            forall|k: int| 0 <= k < i ==> !has_at(s@, pat@, k),
        decreases s@.len() - i,
    {
        if matches_at(s, pat, i) {
            return true;
        }
        i = i + 1;
    }
    if matches_at(s, pat, i) {
        return true;
    }
    assert forall|k: int| !has_at(s@, pat@, k) by {
        if k > i {
            assert(k + pat@.len() > s@.len());
        }
    }
    false
}

/// `s` without whitespace at either end.
fn trim_exec(s: &[u8]) -> (r: Vec<u8>)
    ensures
        r@ == trim(s@),
{
    let n = s.len();
    let mut lo: usize = 0;
    assert(s@.subrange(0, n as int) =~= s@);
    while lo < n && is_space_exec(s[lo])
        invariant
            n == s@.len(),
            lo <= n,
            trim_start(s@) == trim_start(s@.subrange(lo as int, n as int)),
        decreases n - lo,
    {
        assert(s@.subrange(lo as int, n as int).drop_first() =~= s@.subrange(lo + 1, n as int));
        lo = lo + 1;
    }
    assert(trim_start(s@.subrange(lo as int, n as int)) == s@.subrange(lo as int, n as int));
    let mut hi: usize = n;
    while hi > lo && is_space_exec(s[hi - 1])
        invariant
            n == s@.len(),
            lo <= hi <= n,
            trim(s@) == trim_end(s@.subrange(lo as int, hi as int)),
        decreases hi - lo,
    {
        assert(s@.subrange(lo as int, hi as int).drop_last() =~= s@.subrange(lo as int, hi - 1));
        hi = hi - 1;
    }
    copy_range(s, lo, hi)
}

fn is_space_exec(c: u8) -> (r: bool)
    ensures
        r == is_space(c),
{
    c == 32 || (9 <= c && c <= 13)
}

/// The value of a run of digits; `None` where it is over a million.
fn digits_capped(s: &[u8]) -> (r: Option<u64>)
    requires
        all_digits(s@),
    ensures
        r matches Some(v) ==> v == digits_value(s@) && v <= 1_000_000,
        r is None ==> digits_value(s@) > 1_000_000,
{
    let mut acc: u64 = 0;
    let mut i: usize = 0;
    while i < s.len()
        invariant
            i <= s@.len(),
            all_digits(s@),
            acc == digits_value(s@.subrange(0, i as int)),
            acc <= 1_000_000,
        decreases s@.len() - i,
    {
        assert(is_digit(s@[i as int]));
        assert(s@.subrange(0, i + 1).drop_last() =~= s@.subrange(0, i as int));
        acc = acc * 10 + (s[i] - 48) as u64;
        i = i + 1;
        if acc > 1_000_000 {
            proof {
                lemma_digits_monotone(s@, i as int);
            }
            return None;
        }
    }
    assert(s@.subrange(0, i as int) =~= s@);
    Some(acc)
}

fn all_digits_exec(s: &[u8]) -> (r: bool)
    ensures
        r == all_digits(s@),
{
    let mut i: usize = 0;
    while i < s.len()
        invariant
            i <= s@.len(),
            forall|k: int| 0 <= k < i ==> is_digit(#[trigger] s@[k]),
        decreases s@.len() - i,
    {
        if !(48 <= s[i] && s[i] <= 57) {
            return false;
        }
        i = i + 1;
    }
    true
}

/// A decimal number in thousandths; `None` where it is no number, or one
/// beyond a million degrees either way.
fn parse_capped(t: &[u8]) -> (r: Option<i64>)
    ensures
        r matches Some(v) ==> parse_milli(t@) == Some(v as int),
        r is None ==> match parse_milli(t@) {
            Some(m) => m > 1_000_000_000 || m < -1_000_000_000,
            None => true,
        },
{
    let n = t.len();
    let signed = n > 0 && (t[0] == 43 || t[0] == 45);
    let negative = signed && t[0] == 45;
    let body = if signed { copy_range(t, 1, n) } else { copy_range(t, 0, n) };
    assert(body@ == if signed { t@.drop_first() } else { t@ });
    let bn = body.len();
    let d = find_from(body.as_slice(), 46, 0);
    let ip = copy_range(body.as_slice(), 0, d);
    let fp = if d < bn { copy_range(body.as_slice(), d + 1, bn) } else { Vec::new() };
    assert(fp@ == if d < bn { body@.subrange(d + 1, bn as int) } else { Seq::<u8>::empty() });
    if !all_digits_exec(ip.as_slice()) || !all_digits_exec(fp.as_slice()) || ip.len() + fp.len() == 0 {
        return None;
    }
    let frac: u64 = if fp.len() >= 3 {
        let f3 = copy_range(fp.as_slice(), 0, 3);
        assert(all_digits(f3@));
        proof {
            lemma_short_digits(f3@);
        }
        match digits_capped(f3.as_slice()) {
            Some(v) => v,
            None => 0,
        }
    } else {
        proof {
            lemma_short_digits(fp@);
        }
        match digits_capped(fp.as_slice()) {
            Some(v) => if fp.len() == 2 { v * 10 } else if fp.len() == 1 { v * 100 } else { 0 },
            None => 0,
        }
    };
    assert(frac as int == frac_milli(fp@) && frac < 1000);
    match digits_capped(ip.as_slice()) {
        Some(v) => {
            let m = (v * 1000 + frac) as i64;
            if negative { Some(-m) } else { Some(m) }
        },
        None => None,
    }
}

/// A raw reading in thousandths of a degree, if plausible.
fn raw_value_exec(t: &[u8]) -> (r: Option<i32>)
    ensures
        r matches Some(v) ==> raw_value(t@) == Some(v as int),
        r is None ==> raw_value(t@) is None,
{
    match parse_capped(t) {
        Some(m) => {
            let c = if m > 1000000 { m / 1000 } else { m };
            if (SANE_LOW as i64) < c && c < (SANE_HIGH as i64) { Some(c as i32) } else { None }
        },
        None => None,
    }
}

/// A plain reading in thousandths of a degree, if plausible.
fn plain_value_exec(t: &[u8]) -> (r: Option<i32>)
    ensures
        r matches Some(v) ==> plain_value(t@) == Some(v as int),
        r is None ==> plain_value(t@) is None,
{
    match parse_capped(t) {
        Some(m) => if (SANE_LOW as i64) < m && m < (SANE_HIGH as i64) { Some(m as i32) } else { None },
        None => None,
    }
}

proof fn lemma_token_bounds(s: Seq<u8>, from: int)
    requires
        0 <= from <= s.len(),
    ensures
        from <= token_end(s, from) <= s.len(),
        from <= skip_spaces(s, from) <= s.len(),
        skip_spaces(s, from) < s.len() ==> !is_space(s[skip_spaces(s, from)]),
    decreases s.len() - from,
{
    if from < s.len() {
        lemma_token_bounds(s, from + 1);
    }
}

fn skip_spaces_exec(l: &[u8], from: usize) -> (r: usize)
    requires
        from <= l@.len(),
    ensures
        r == skip_spaces(l@, from as int),
{
    let mut i = from;
    while i < l.len() && is_space_exec(l[i])
        invariant
            from <= i <= l@.len(),
            skip_spaces(l@, from as int) == skip_spaces(l@, i as int),
        decreases l@.len() - i,
    {
        i = i + 1;
    }
    i
}

fn token_end_exec(l: &[u8], from: usize) -> (r: usize)
    requires
        from <= l@.len(),
    ensures
        r == token_end(l@, from as int),
{
    let mut i = from;
    while i < l.len() && !is_space_exec(l[i])
        invariant
            from <= i <= l@.len(),
            token_end(l@, from as int) == token_end(l@, i as int),
        decreases l@.len() - i,
    {
        i = i + 1;
    }
    i
}

fn degree_c_exec() -> (r: Vec<u8>)
    ensures
        r@ == degree_c(),
{
    let r = vec![0xc2u8, 0xb0, 67];
    assert(r@ =~= degree_c());
    r
}

/// The first token of `l` that holds the degree-Celsius sign.
fn marked_token_exec(l: &[u8]) -> (r: Option<(usize, usize)>)
    ensures
        r matches Some((s, e)) ==> marked_token(l@, 0) == Some((s as int, e as int)) && s <= e <= l@.len(),
        r is None ==> marked_token(l@, 0) is None,
{
    let deg = degree_c_exec();
    let mut i: usize = 0;
    while i < l.len()
        invariant
            i <= l@.len(),
            deg@ == degree_c(),
            marked_token(l@, 0) == marked_token(l@, i as int),
        decreases l@.len() - i,
    {
        let s = skip_spaces_exec(l, i);
        proof {
            lemma_token_bounds(l@, i as int);
        }
        if s >= l.len() {
            return None;
        }
        let e = token_end_exec(l, s);
        proof {
            lemma_token_bounds(l@, s as int);
            lemma_token_bounds(l@, s + 1);
        }
        let tok = copy_range(l, s, e);
        if contains_exec(tok.as_slice(), deg.as_slice()) {
            return Some((s, e));
        }
        i = e;
    }
    proof {
        lemma_token_bounds(l@, i as int);
    }
    None
}

/// `t` without any degree-Celsius sign and without any '+'.
fn strip_marks_exec(t: &[u8]) -> (r: Vec<u8>)
    ensures
        r@ == strip_marks(t@),
{
    let deg = degree_c_exec();
    let n = t.len();
    let mut out: Vec<u8> = Vec::new();
    let mut i: usize = 0;
    assert(t@.subrange(0, n as int) =~= t@);
    while i < n
        invariant
            n == t@.len(),
            i <= n,
            deg@ == degree_c(),
            out@ + strip_marks(t@.subrange(i as int, n as int)) == strip_marks(t@),
        decreases n - i,
    {
        let ghost rest = t@.subrange(i as int, n as int);
        let here = matches_at(t, deg.as_slice(), i);
        proof {
            if i + 3 <= n {
                assert(rest.subrange(0, 3) =~= t@.subrange(i as int, i + 3));
            }
        }
        assert(here == has_at(rest, degree_c(), 0));
        if here {
            assert(rest.subrange(3, rest.len() as int) =~= t@.subrange(i + 3, n as int));
            i = i + 3;
        } else if t[i] == 43 {
            assert(rest.drop_first() =~= t@.subrange(i + 1, n as int));
            i = i + 1;
        } else {
            assert(rest.drop_first() =~= t@.subrange(i + 1, n as int));
            let ghost before = out@;
            out.push(t[i]);
            assert(out@ + strip_marks(t@.subrange(i + 1, n as int)) =~= before + (seq![t@[i as int]]
                + strip_marks(t@.subrange(i + 1, n as int))));
            i = i + 1;
        }
    }
    assert(out@ + strip_marks(t@.subrange(n as int, n as int)) =~= out@);
    out
}

/// The reading one line of the raw report gives.
fn raw_line_value(l: &[u8]) -> (r: Option<i32>)
    ensures
        r matches Some(v) ==> raw_line_reading(l@) == Some(v as int),
        r is None ==> raw_line_reading(l@) is None,
{
    let input = vec![95u8, 105, 110, 112, 117, 116, 58];
    let core = vec![99u8, 111, 114, 101];
    let package = vec![112u8, 97, 99, 107, 97, 103, 101];
    let cpu = vec![99u8, 112, 117];
    let tctl = vec![116u8, 99, 116, 108];
    assert(input@ =~= input_tag());
    assert(core@ =~= seq![99u8, 111, 114, 101]);
    assert(package@ =~= seq![112u8, 97, 99, 107, 97, 103, 101]);
    assert(cpu@ =~= seq![99u8, 112, 117]);
    assert(tctl@ =~= seq![116u8, 99, 116, 108]);
    if !contains_exec(l, input.as_slice()) {
        return None;
    }
    if !(contains_exec(l, core.as_slice()) || contains_exec(l, package.as_slice()) || contains_exec(
        l,
        cpu.as_slice(),
    ) || contains_exec(l, tctl.as_slice())) {
        return None;
    }
    let p = find_from(l, 58, 0);
    if p >= l.len() {
        return None;
    }
    let q = find_from(l, 58, p + 1);
    let field = copy_range(l, p + 1, q);
    let trimmed = trim_exec(field.as_slice());
    raw_value_exec(trimmed.as_slice())
}

/// The reading one line of the plain report gives.
fn plain_line_value(l: &[u8]) -> (r: Option<i32>)
    ensures
        r matches Some(v) ==> plain_line_reading(l@) == Some(v as int),
        r is None ==> plain_line_reading(l@) is None,
{
    let core = vec![67u8, 111, 114, 101];
    let package = vec![80u8, 97, 99, 107, 97, 103, 101];
    let cpu = vec![67u8, 80, 85];
    let tctl = vec![84u8, 99, 116, 108];
    let deg = degree_c_exec();
    assert(core@ =~= seq![67u8, 111, 114, 101]);
    assert(package@ =~= seq![80u8, 97, 99, 107, 97, 103, 101]);
    assert(cpu@ =~= seq![67u8, 80, 85]);
    assert(tctl@ =~= seq![84u8, 99, 116, 108]);
    if !(contains_exec(l, core.as_slice()) || contains_exec(l, package.as_slice()) || contains_exec(
        l,
        cpu.as_slice(),
    ) || contains_exec(l, tctl.as_slice())) {
        return None;
    }
    if !contains_exec(l, deg.as_slice()) {
        return None;
    }
    match marked_token_exec(l) {
        Some((s, e)) => {
            let tok = copy_range(l, s, e);
            let stripped = strip_marks_exec(tok.as_slice());
            plain_value_exec(stripped.as_slice())
        },
        None => None,
    }
}

fn first_reading_exec(out: &[u8], plain: bool) -> (r: Option<i32>)
    ensures
        r matches Some(v) ==> first_reading(out@, 0, plain) == Some(v as int),
        r is None ==> first_reading(out@, 0, plain) is None,
{
    let n = out.len();
    let mut i: usize = 0;
    while i < n
        invariant
            n == out@.len(),
            i <= n,
            first_reading(out@, 0, plain) == first_reading(out@, i as int, plain),
        decreases n - i,
    {
        let e = find_from(out, 10, i);
        let line = copy_range(out, i, e);
        let v = if plain { plain_line_value(line.as_slice()) } else { raw_line_value(line.as_slice()) };
        if v.is_some() {
            return v;
        }
        if e >= n {
            return None;
        }
        i = e + 1;
    }
    None
}

/// The CPU temperature, in thousandths of a degree Celsius, that the raw report
/// of `sensors -A -u` gives: the first input line of a CPU sensor whose value is
/// plausible.
pub fn cpu_temperature_raw(out: &[u8]) -> (r: Option<i32>)
    ensures
        r matches Some(v) ==> first_reading(out@, 0, false) == Some(v as int),
        r is None ==> first_reading(out@, 0, false) is None,
{
    first_reading_exec(out, false)
}

/// The CPU temperature, in thousandths of a degree Celsius, that the plain
/// report of `sensors` gives: the first line of a CPU sensor whose marked
/// value is plausible.
pub fn cpu_temperature_plain(out: &[u8]) -> (r: Option<i32>)
    ensures
        r matches Some(v) ==> first_reading(out@, 0, true) == Some(v as int),
        r is None ==> first_reading(out@, 0, true) is None,
{
    first_reading_exec(out, true)
}

} // verus!
