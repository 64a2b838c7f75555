//! Character-level text helpers shared by the bot's parsers and formatters:
//! searching, splitting, trimming, decimal numbers and line breaking.
use vstd::prelude::*;

verus! {

// ---------------------------------------------------------------------------
// Specifications
// ---------------------------------------------------------------------------

/// The views of a sequence of strings.
pub open spec fn strings_view(v: Seq<String>) -> Seq<Seq<char>> {
    v.map_values(|s: String| s@)
}

/// The view of an optional string.
pub open spec fn opt_view(o: Option<String>) -> Option<Seq<char>> {
    match o {
        Some(s) => Some(s@),
        None => None,
    }
}

/// `i` is the first position of `c` in `s`.
pub open spec fn is_first_index_of(s: Seq<char>, c: char, i: int) -> bool {
    &&& 0 <= i < s.len()
    &&& s[i] == c
    &&& forall|j: int| 0 <= j < i ==> s[j] != c
}

/// The first position of `c` in `s`, if any.
pub open spec fn index_of_char(s: Seq<char>, c: char) -> Option<int> {
    if exists|i: int| is_first_index_of(s, c, i) {
        Some(choose|i: int| is_first_index_of(s, c, i))
    } else {
        None
    }
}

/// `pat` occurs in `s` at position `i`.
pub open spec fn occurs_at(s: Seq<char>, pat: Seq<char>, i: int) -> bool {
    &&& 0 <= i
    &&& i + pat.len() <= s.len()
    &&& s.subrange(i, i + pat.len()) == pat
}

/// `i` is the first position at which `pat` occurs in `s`.
pub open spec fn is_first_occurrence(s: Seq<char>, pat: Seq<char>, i: int) -> bool {
    &&& occurs_at(s, pat, i)
    &&& forall|j: int| 0 <= j < i ==> !occurs_at(s, pat, j)
}

/// The first position at which `pat` occurs in `s`, if any (`str::find`).
pub open spec fn find_sub(s: Seq<char>, pat: Seq<char>) -> Option<int> {
    if exists|i: int| is_first_occurrence(s, pat, i) {
        Some(choose|i: int| is_first_occurrence(s, pat, i))
    } else {
        None
    }
}

/// The pieces of `s` between occurrences of `c` (`str::split` with a char).
/// There is always at least one piece.
pub open spec fn split_char(s: Seq<char>, c: char) -> Seq<Seq<char>>
    decreases s.len(),
{
    if exists|i: int| is_first_index_of(s, c, i) {
        let i = choose|i: int| is_first_index_of(s, c, i);
        seq![s.take(i)] + split_char(s.skip(i + 1), c)
    } else {
        seq![s]
    }
}

/// `s` without the leading copies of `c`.
pub open spec fn trim_start_char(s: Seq<char>, c: char) -> Seq<char>
    decreases s.len(),
{
    if s.len() > 0 && s[0] == c {
        trim_start_char(s.drop_first(), c)
    } else {
        s
    }
}

/// `s` without the trailing copies of `c`.
pub open spec fn trim_end_char(s: Seq<char>, c: char) -> Seq<char>
    decreases s.len(),
{
    if s.len() > 0 && s.last() == c {
        trim_end_char(s.drop_last(), c)
    } else {
        s
    }
}

/// `s` without leading and trailing copies of `c` (`str::trim_matches` with a char).
pub open spec fn trim_char(s: Seq<char>, c: char) -> Seq<char> {
    trim_end_char(trim_start_char(s, c), c)
}

/// An ASCII decimal digit.
pub open spec fn is_digit(c: char) -> bool {
    '0' <= c && c <= '9'
}

/// The value of an ASCII decimal digit.
pub open spec fn digit_value(c: char) -> nat {
    (c as int - '0' as int) as nat
}

/// The value of a string of decimal digits.
pub open spec fn digits_value(d: Seq<char>) -> nat
    decreases d.len(),
{
    if d.len() == 0 {
        0
    } else {
        digits_value(d.drop_last()) * 10 + digit_value(d.last())
    }
}

/// A non-empty string of ASCII decimal digits.
pub open spec fn all_digits(d: Seq<char>) -> bool {
    d.len() > 0 && forall|i: int| 0 <= i < d.len() ==> is_digit(d[i])
}

/// The digits of an unsigned number literal: an optional leading `+` removed.
pub open spec fn unsigned_digits(s: Seq<char>) -> Seq<char> {
    if s.len() > 0 && s[0] == '+' {
        s.drop_first()
    } else {
        s
    }
}

/// The value that `str::parse` gives for an unsigned integer type whose
/// largest value is `max`: an optional `+`, then one or more ASCII digits,
/// and a value no greater than `max`.
pub open spec fn parse_unsigned(s: Seq<char>, max: nat) -> Option<nat> {
    let d = unsigned_digits(s);
    if all_digits(d) && digits_value(d) <= max {
        Some(digits_value(d))
    } else {
        None
    }
}

/// The value that `str::parse::<i64>` gives: an optional sign, then one or
/// more ASCII digits, and a value within the range of `i64`.
pub open spec fn parse_i64_spec(s: Seq<char>) -> Option<int> {
    if s.len() > 0 && s[0] == '-' {
        let d = s.drop_first();
        if all_digits(d) && digits_value(d) <= 0x8000_0000_0000_0000 {
            Some(-(digits_value(d) as int))
        } else {
            None
        }
    } else {
        match parse_unsigned(s, 0x7fff_ffff_ffff_ffff) {
            Some(v) => Some(v as int),
            None => None,
        }
    }
}

/// The character of a decimal digit.
pub open spec fn digit_char(d: nat) -> char {
    if d == 0 { '0' }
    else if d == 1 { '1' }
    else if d == 2 { '2' }
    else if d == 3 { '3' }
    else if d == 4 { '4' }
    else if d == 5 { '5' }
    else if d == 6 { '6' }
    else if d == 7 { '7' }
    else if d == 8 { '8' }
    else { '9' }
}

/// The decimal representation of a natural number, without leading zeros.
pub open spec fn decimal(n: nat) -> Seq<char>
    decreases n,
{
    if n < 10 {
        seq![digit_char(n)]
    } else {
        decimal(n / 10).push(digit_char(n % 10))
    }
}

/// The line without its line break: a trailing `\r` is dropped.
pub open spec fn strip_cr(line: Seq<char>) -> Seq<char> {
    if line.len() > 0 && line.last() == '\r' {
        line.drop_last()
    } else {
        line
    }
}

/// The lines of a text (`str::lines`): split at `\n`, each line without a
/// `\r` that precedes its `\n`, and no empty last line after a final `\n`.
pub open spec fn text_lines(s: Seq<char>) -> Seq<Seq<char>>
    decreases s.len(),
{
    if s.len() == 0 {
        seq![]
    } else if exists|i: int| is_first_index_of(s, '\n', i) {
        let i = choose|i: int| is_first_index_of(s, '\n', i);
        seq![strip_cr(s.take(i))] + text_lines(s.skip(i + 1))
    } else {
        seq![s]
    }
}

/// The pieces joined with `sep` between each two of them.
pub open spec fn join(pieces: Seq<Seq<char>>, sep: Seq<char>) -> Seq<char>
    decreases pieces.len(),
{
    if pieces.len() == 0 {
        seq![]
    } else if pieces.len() == 1 {
        pieces[0]
    } else {
        join(pieces.drop_last(), sep) + sep + pieces.last()
    }
}

// ---------------------------------------------------------------------------
// Lemmas
// ---------------------------------------------------------------------------

pub proof fn lemma_index_of_char_found(s: Seq<char>, c: char, i: int)
    requires
        is_first_index_of(s, c, i),
    ensures
        index_of_char(s, c) == Some(i),
{
    let k = choose|k: int| is_first_index_of(s, c, k);
    assert(is_first_index_of(s, c, k));
    if k < i {
        assert(s[k] != c);
    } else if k > i {
        assert(s[i] != c);
    }
}

pub proof fn lemma_index_of_char_none(s: Seq<char>, c: char)
    requires
        forall|j: int| 0 <= j < s.len() ==> s[j] != c,
    ensures
        index_of_char(s, c) is None,
{
}

pub proof fn lemma_find_sub_found(s: Seq<char>, pat: Seq<char>, i: int)
    requires
        is_first_occurrence(s, pat, i),
    ensures
        find_sub(s, pat) == Some(i),
{
    let k = choose|k: int| is_first_occurrence(s, pat, k);
    assert(is_first_occurrence(s, pat, k));
    if k < i {
        assert(!occurs_at(s, pat, k));
    } else if k > i {
        assert(!occurs_at(s, pat, i));
    }
}

/// Where `c` occurs, it has a first position.
pub proof fn lemma_first_index_exists(s: Seq<char>, c: char, j: int)
    requires
        0 <= j < s.len(),
        s[j] == c,
    ensures
        exists|i: int| is_first_index_of(s, c, i),
    decreases j,
{
    if forall|k: int| 0 <= k < j ==> s[k] != c {
        assert(is_first_index_of(s, c, j));
    } else {
        let k = choose|k: int| 0 <= k < j && s[k] == c;
        lemma_first_index_exists(s, c, k);
    }
}

/// Splitting at the first separator.
pub proof fn lemma_split_char_step(s: Seq<char>, c: char, i: int)
    requires
        is_first_index_of(s, c, i),
    ensures
        split_char(s, c) == seq![s.take(i)] + split_char(s.skip(i + 1), c),
{
    lemma_index_of_char_found(s, c, i);
    let k = choose|k: int| is_first_index_of(s, c, k);
    assert(k == i);
}

/// Splitting a piece without separators.
pub proof fn lemma_split_char_last(s: Seq<char>, c: char)
    requires
        forall|j: int| 0 <= j < s.len() ==> s[j] != c,
    ensures
        split_char(s, c) == seq![s],
{
}

pub proof fn lemma_split_char_nonempty(s: Seq<char>, c: char)
    ensures
        split_char(s, c).len() >= 1,
    decreases s.len(),
{
    if exists|i: int| is_first_index_of(s, c, i) {
        let i = choose|i: int| is_first_index_of(s, c, i);
        lemma_split_char_nonempty(s.skip(i + 1), c);
    }
}

pub proof fn lemma_text_lines_step(s: Seq<char>, i: int)
    requires
        is_first_index_of(s, '\n', i),
    ensures
        text_lines(s) == seq![strip_cr(s.take(i))] + text_lines(s.skip(i + 1)),
{
    lemma_index_of_char_found(s, '\n', i);
}

pub proof fn lemma_contains_push<A>(s: Seq<A>, x: A, y: A)
    ensures
        s.push(x).contains(y) == (s.contains(y) || x == y),
{
    if s.contains(y) {
        let k = choose|k: int| 0 <= k < s.len() && #[trigger] s[k] == y;
        assert(s.push(x)[k] == y);
    }
    if x == y {
        assert(s.push(x)[s.len() as int] == y);
    }
    if s.push(x).contains(y) {
        let k = choose|k: int| 0 <= k < s.push(x).len() && #[trigger] s.push(x)[k] == y;
        if k < s.len() {
            assert(s[k] == y);
        }
    }
}

pub proof fn lemma_digits_value_push(d: Seq<char>, c: char)
    ensures
        digits_value(d.push(c)) == digits_value(d) * 10 + digit_value(c),
{
    assert(d.push(c).drop_last() =~= d);
}

/// A longer string of digits is worth at least as much as its prefix.
pub proof fn lemma_digits_value_prefix(d: Seq<char>, i: int)
    requires
        0 <= i <= d.len(),
    ensures
        digits_value(d.take(i)) <= digits_value(d),
    decreases d.len() - i,
{
    if i < d.len() {
        lemma_digits_value_prefix(d, i + 1);
        assert(d.take(i + 1).drop_last() =~= d.take(i));
        assert(digits_value(d.take(i + 1)) == digits_value(d.take(i)) * 10 + digit_value(d[i]));
    } else {
        assert(d.take(i) =~= d);
    }
}

proof fn lemma_digit_char(d: nat)
    requires
        d < 10,
    ensures
        is_digit(digit_char(d)),
        digit_value(digit_char(d)) == d,
{
}

pub proof fn lemma_decimal_digits(n: nat)
    ensures
        all_digits(decimal(n)),
        digits_value(decimal(n)) == n,
    decreases n,
{
    if n < 10 {
        lemma_digit_char(n);
        lemma_digits_value_push(Seq::<char>::empty(), digit_char(n));
        assert(Seq::<char>::empty().push(digit_char(n)) =~= decimal(n));
        assert(digits_value(Seq::<char>::empty()) == 0);
    } else {
        lemma_decimal_digits(n / 10);
        lemma_digit_char(n % 10);
        lemma_digits_value_push(decimal(n / 10), digit_char(n % 10));
        assert(n == (n / 10) * 10 + n % 10) by (nonlinear_arith);
        let d = decimal(n);
        assert forall|i: int| 0 <= i < d.len() implies is_digit(d[i]) by {
            if i < d.len() - 1 {
                assert(d[i] == decimal(n / 10)[i]);
            }
        }
    }
}

/// Reading back the decimal text of a number gives the number: parsing
/// `decimal(n)` as an unsigned number no greater than `max` gives `n`.
pub proof fn law_decimal_roundtrip(n: nat, max: nat)
    requires
        n <= max,
    ensures
        parse_unsigned(decimal(n), max) == Some(n),
{
    lemma_decimal_digits(n);
    assert(is_digit(decimal(n)[0]));
    assert(unsigned_digits(decimal(n)) == decimal(n));
}

// ---------------------------------------------------------------------------
// Executable helpers
// ---------------------------------------------------------------------------

/// Appends one character to a string.
#[verifier::external_body]
pub(crate) fn push_char(s: &mut String, c: char)
    ensures
        final(s)@ == old(s)@.push(c),
{
    s.push(c);
}

/// The characters of a string slice, in order.
pub fn chars_of(s: &str) -> (v: Vec<char>)
    ensures
        v@ == s@,
{
    let mut v: Vec<char> = Vec::new();
    for c in it: s.chars()
        invariant
            v@ == it.seq().take(it.index() as int),
            it.seq() == s@,
    {
        v.push(c);
    }
    v
}

/// Builds a string from a slice of characters.
pub fn string_of(v: &[char]) -> (s: String)
    ensures
        s@ == v@,
{
    let mut s = String::new();
    let mut i: usize = 0;
    while i < v.len()
        invariant
            i <= v.len(),
            s@ == v@.take(i as int),
        decreases v.len() - i,
    {
        push_char(&mut s, v[i]);
        assert(v@.take(i as int).push(v@[i as int]) =~= v@.take(i + 1));
        i += 1;
    }
    assert(v@.take(v.len() as int) =~= v@);
    s
}

/// The characters `v[from..to]` as a string.
pub fn string_of_range(v: &[char], from: usize, to: usize) -> (s: String)
    requires
        from <= to <= v.len(),
    ensures
        s@ == v@.subrange(from as int, to as int),
{
    let mut s = String::new();
    let mut i: usize = from;
    while i < to
        invariant
            from <= i <= to <= v.len(),
            s@ == v@.subrange(from as int, i as int),
        decreases to - i,
    {
        push_char(&mut s, v[i]);
        assert(v@.subrange(from as int, i as int).push(v@[i as int]) =~= v@.subrange(
            from as int,
            i + 1,
        ));
        i += 1;
    }
    s
}

/// Appends a string slice to a string.
pub fn push_str(s: &mut String, t: &str)
    ensures
        final(s)@ == old(s)@ + t@,
{
    let ghost s0 = s@;
    for c in it: t.chars()
        invariant
            s@ == s0 + it.seq().take(it.index() as int),
            it.seq() == t@,
    {
        push_char(s, c);
        assert(s0 + it.seq().take(it.index() as int).push(c) =~= s0 + it.seq().take(
            it.index() + 1,
        ));
    }
    assert(t@.take(t@.len() as int) =~= t@);
}

/// Two string slices hold the same characters.
pub fn str_eq(a: &str, b: &str) -> (r: bool)
    ensures
        r == (a@ == b@),
{
    let x = chars_of(a);
    let y = chars_of(b);
    if x.len() != y.len() {
        return false;
    }
    let mut i: usize = 0;
    while i < x.len()
        invariant
            x@ == a@,
            y@ == b@,
            x.len() == y.len(),
            i <= x.len(),
            forall|j: int| 0 <= j < i ==> x@[j] == y@[j],
        decreases x.len() - i,
    {
        if x[i] != y[i] {
            return false;
        }
        i += 1;
    }
    assert(x@ =~= y@);
    true
}

/// The first position of `c` in `v` at or after `from`, if any.
pub fn find_char_from(v: &[char], c: char, from: usize) -> (r: Option<usize>)
    requires
        from <= v.len(),
    ensures
        match r {
            Some(i) => from <= i < v.len() && v@[i as int] == c && forall|j: int|
                from <= j < i ==> v@[j] != c,
            None => forall|j: int| from <= j < v.len() ==> v@[j] != c,
        },
{
    let mut i = from;
    while i < v.len()
        invariant
            from <= i <= v.len(),
            forall|j: int| from <= j < i ==> v@[j] != c,
        decreases v.len() - i,
    {
        if v[i] == c {
            return Some(i);
        }
        i += 1;
    }
    None
}

/// Splits the characters at each `c` (`str::split` with a char).
pub fn split_on_char(v: &[char], c: char) -> (r: Vec<String>)
    ensures
        strings_view(r@) == split_char(v@, c),
{
    let mut r: Vec<String> = Vec::new();
    let mut start: usize = 0;
    assert(v@.skip(0) =~= v@);
    assert(strings_view(r@) =~= Seq::<Seq<char>>::empty());
    assert(strings_view(r@) + split_char(v@, c) =~= split_char(v@, c));
    loop
        invariant
            start <= v.len(),
            strings_view(r@) + split_char(v@.skip(start as int), c) == split_char(v@, c),
        decreases v.len() - start,
    {
        let ghost rest = v@.skip(start as int);
        match find_char_from(v, c, start) {
            Some(i) => {
                let piece = string_of_range(v, start, i);
                proof {
                    assert(is_first_index_of(rest, c, i - start));
                    lemma_split_char_step(rest, c, i - start);
                    assert(rest.take(i - start) =~= v@.subrange(start as int, i as int));
                    assert(rest.skip(i - start + 1) =~= v@.skip(i + 1));
                }
                let ghost before = r@;
                r.push(piece);
                proof {
                    assert(strings_view(r@) =~= strings_view(before).push(piece@));
                    assert(strings_view(r@) + split_char(v@.skip(i + 1), c) =~= strings_view(
                        before,
                    ) + split_char(rest, c));
                }
                start = i + 1;
            },
            None => {
                let piece = string_of_range(v, start, v.len());
                proof {
                    lemma_split_char_last(rest, c);
                }
                let ghost before = r@;
                r.push(piece);
                proof {
                    assert(rest =~= v@.subrange(start as int, v.len() as int));
                    assert(strings_view(r@) =~= strings_view(before).push(piece@));
                    assert(strings_view(r@) =~= strings_view(before) + split_char(rest, c));
                }
                return r;
            },
        }
    }
}


/// The bounds `(start, end)` of `v` without leading and trailing copies of `c`.
pub fn trim_char_bounds(v: &[char], c: char) -> (r: (usize, usize))
    ensures
        r.0 <= r.1 <= v.len(),
        v@.subrange(r.0 as int, r.1 as int) == trim_char(v@, c),
{
    let mut i: usize = 0;
    assert(v@.skip(0) =~= v@);
    while i < v.len() && v[i] == c
        invariant
            i <= v.len(),
            trim_start_char(v@, c) == trim_start_char(v@.skip(i as int), c),
        decreases v.len() - i,
    {
        assert(v@.skip(i as int).drop_first() =~= v@.skip(i + 1));
        i += 1;
    }
    let ghost t = v@.skip(i as int);
    assert(trim_start_char(t, c) == t);
    let mut j: usize = v.len();
    assert(v@.subrange(i as int, j as int) =~= t);
    while j > i && v[j - 1] == c
        invariant
            i <= j <= v.len(),
            trim_end_char(t, c) == trim_end_char(v@.subrange(i as int, j as int), c),
        decreases j,
    {
        assert(v@.subrange(i as int, j as int).drop_last() =~= v@.subrange(i as int, j - 1));
        j -= 1;
    }
    (i, j)
}

/// The value of an ASCII digit.
fn digit_of(c: char) -> (d: u64)
    requires
        is_digit(c),
    ensures
        d == digit_value(c),
        d < 10,
{
    (c as u32 - '0' as u32) as u64
}

/// Parses `v` as an unsigned number no greater than `max` (`str::parse`).
pub fn parse_unsigned_chars(v: &[char], max: u64) -> (r: Option<u64>)
    ensures
        r matches Some(x) ==> parse_unsigned(v@, max as nat) == Some(x as nat),
        r is None ==> parse_unsigned(v@, max as nat) is None,
{
    let start: usize = if v.len() > 0 && v[0] == '+' { 1 } else { 0 };
    let ghost d = unsigned_digits(v@);
    assert(d =~= v@.skip(start as int));
    if start >= v.len() {
        return None;
    }
    let mut acc: u64 = 0;
    let mut i: usize = start;
    assert(d.take(0) =~= Seq::<char>::empty());
    while i < v.len()
        invariant
            start <= i <= v.len(),
            d =~= v@.skip(start as int),
            d == unsigned_digits(v@),
            acc as nat == digits_value(d.take(i - start)),
            acc <= max,
            forall|k: int| start <= k < i ==> is_digit(v@[k]),
        decreases v.len() - i,
    {
        if !('0' <= v[i] && v[i] <= '9') {
            assert(d[i - start] == v@[i as int]);
            assert(!is_digit(d[i - start]));
            assert(!all_digits(d));
            return None;
        }
        let dg = digit_of(v[i]);
        let next: u128 = (acc as u128) * 10 + (dg as u128);
        proof {
            assert(d.take(i - start + 1).drop_last() =~= d.take(i - start));
            assert(digits_value(d.take(i - start + 1)) == digits_value(d.take(i - start)) * 10
                + digit_value(d[i - start]));
        }
        assert(d[i - start] == v@[i as int]);
        assert(next == digits_value(d.take(i - start + 1)));
        if next > max as u128 {
            proof {
                lemma_digits_value_prefix(d, i - start + 1);
            }
            assert(digits_value(d) > max);
            return None;
        }
        acc = next as u64;
        i += 1;
    }
    assert(d.take(i - start) =~= d);
    assert(all_digits(d));
    Some(acc)
}

/// Parses `v` as an `i64` (`str::parse::<i64>`).
pub fn parse_i64_chars(v: &[char]) -> (r: Option<i64>)
    ensures
        r matches Some(x) ==> parse_i64_spec(v@) == Some(x as int),
        r is None ==> parse_i64_spec(v@) is None,
{
    if v.len() > 0 && v[0] == '-' {
        let rest = &v[1..v.len()];
        proof {
            assert(rest@ =~= v@.drop_first());
        }
        if rest.len() > 0 && rest[0] == '+' {
            assert(!is_digit(rest@[0]));
            return None;
        }
        assert(unsigned_digits(rest@) == rest@);
        match parse_unsigned_chars(rest, 0x8000_0000_0000_0000u64) {
            Some(x) => {
                if x == 0x8000_0000_0000_0000u64 {
                    Some(i64::MIN)
                } else {
                    Some(-(x as i64))
                }
            },
            None => None,
        }
    } else {
        match parse_unsigned_chars(v, 0x7fff_ffff_ffff_ffffu64) {
            Some(x) => Some(x as i64),
            None => None,
        }
    }
}

/// The character of a decimal digit.
fn digit_char_exec(d: u64) -> (c: char)
    requires
        d < 10,
    ensures
        c == digit_char(d as nat),
{
    if d == 0 { '0' }
    else if d == 1 { '1' }
    else if d == 2 { '2' }
    else if d == 3 { '3' }
    else if d == 4 { '4' }
    else if d == 5 { '5' }
    else if d == 6 { '6' }
    else if d == 7 { '7' }
    else if d == 8 { '8' }
    else { '9' }
}

/// The decimal digits of `n`.
fn decimal_chars(n: u64) -> (v: Vec<char>)
    ensures
        v@ == decimal(n as nat),
    decreases n,
{
    if n < 10 {
        let mut v: Vec<char> = Vec::new();
        v.push(digit_char_exec(n));
        assert(v@ =~= seq![digit_char(n as nat)]);
        v
    } else {
        let mut v = decimal_chars(n / 10);
        v.push(digit_char_exec(n % 10));
        v
    }
}

/// The decimal representation of `n` (`u64::to_string`).
pub fn decimal_string(n: u64) -> (s: String)
    ensures
        s@ == decimal(n as nat),
{
    let v = decimal_chars(n);
    string_of(v.as_slice())
}

/// The first position at or after `from` at which `pat` occurs in `v`.
pub fn find_sub_from(v: &[char], pat: &[char], from: usize) -> (r: Option<usize>)
    requires
        from <= v.len(),
    ensures
        match r {
            Some(i) => from <= i && occurs_at(v@, pat@, i as int) && forall|j: int|
                from <= j < i ==> !occurs_at(v@, pat@, j),
            None => forall|j: int| from <= j ==> !occurs_at(v@, pat@, j),
        },
{
    if pat.len() > v.len() {
        return None;
    }
    let last = v.len() - pat.len();
    let mut i = from;
    while i <= last
        invariant
            from <= i,
            last == v.len() - pat.len(),
            pat.len() <= v.len(),
            forall|j: int| from <= j < i ==> !occurs_at(v@, pat@, j),
        decreases last + 1 - i,
    {
        let mut k: usize = 0;
        let mut same = true;
        while k < pat.len()
            invariant
                i <= last,
                last == v.len() - pat.len(),
                k <= pat.len(),
                same ==> forall|m: int| 0 <= m < k ==> v@[i + m] == pat@[m],
                !same ==> !occurs_at(v@, pat@, i as int),
            decreases pat.len() - k,
        {
            if v[i + k] != pat[k] {
                proof {
                    if occurs_at(v@, pat@, i as int) {
                        assert(v@.subrange(i as int, i + pat.len())[k as int] == v@[i + k]);
                    }
                }
                same = false;
            }
            k += 1;
        }
        if same {
            assert(v@.subrange(i as int, i + pat.len()) =~= pat@);
            return Some(i);
        }
        if i == last {
            return None;
        }
        i += 1;
    }
    None
}

/// The lines of the characters (`str::lines`).
pub fn lines_of(v: &[char]) -> (r: Vec<String>)
    ensures
        strings_view(r@) == text_lines(v@),
{
    let mut r: Vec<String> = Vec::new();
    let mut start: usize = 0;
    assert(v@.skip(0) =~= v@);
    assert(strings_view(r@) + text_lines(v@) =~= text_lines(v@));
    while start < v.len()
        invariant
            start <= v.len(),
            strings_view(r@) + text_lines(v@.skip(start as int)) == text_lines(v@),
        decreases v.len() - start,
    {
        let ghost rest = v@.skip(start as int);
        let ghost before = r@;
        match find_char_from(v, '\n', start) {
            Some(i) => {
                let end = if i > start && v[i - 1] == '\r' { i - 1 } else { i };
                let piece = string_of_range(v, start, end);
                proof {
                    assert(is_first_index_of(rest, '\n', i - start));
                    lemma_text_lines_step(rest, i - start);
                    assert(strip_cr(rest.take(i - start)) =~= v@.subrange(start as int, end as int));
                    assert(rest.skip(i - start + 1) =~= v@.skip(i + 1));
                }
                r.push(piece);
                proof {
                    assert(strings_view(r@) =~= strings_view(before).push(piece@));
                    assert(strings_view(r@) + text_lines(v@.skip(i + 1)) =~= strings_view(before)
                        + text_lines(rest));
                }
                start = i + 1;
            },
            None => {
                let piece = string_of_range(v, start, v.len());
                proof {
                    assert(rest.len() > 0);
                    assert(rest =~= v@.subrange(start as int, v.len() as int));
                    assert(text_lines(rest) == seq![rest]);
                }
                r.push(piece);
                proof {
                    assert(strings_view(r@) =~= strings_view(before).push(piece@));
                    assert(strings_view(r@) =~= strings_view(before) + text_lines(rest));
                    assert(v@.skip(v.len() as int) =~= Seq::<char>::empty());
                    assert(strings_view(r@) + text_lines(v@.skip(v.len() as int)) =~= strings_view(r@));
                }
                start = v.len();
            },
        }
    }
    assert(v@.skip(start as int) =~= Seq::<char>::empty());
    assert(strings_view(r@) + text_lines(v@.skip(start as int)) =~= strings_view(r@));
    r
}

/// The pieces `pieces[from..to]` joined with `sep`.
pub fn join_range(pieces: &Vec<String>, from: usize, to: usize, sep: &str) -> (s: String)
    requires
        from <= to <= pieces.len(),
    ensures
        s@ == join(strings_view(pieces@).subrange(from as int, to as int), sep@),
{
    let ghost all = strings_view(pieces@);
    let mut s = String::new();
    let mut i = from;
    assert(all.subrange(from as int, from as int) =~= Seq::<Seq<char>>::empty());
    while i < to
        invariant
            from <= i <= to <= pieces.len(),
            all == strings_view(pieces@),
            s@ == join(all.subrange(from as int, i as int), sep@),
        decreases to - i,
    {
        let ghost sub = all.subrange(from as int, i + 1);
        assert(sub.drop_last() =~= all.subrange(from as int, i as int));
        assert(sub.last() == pieces@[i as int]@);
        if i > from {
            push_str(&mut s, sep);
        } else {
            assert(sub.len() == 1);
        }
        push_str(&mut s, pieces[i].as_str());
        i += 1;
    }
    s
}

} // verus!
