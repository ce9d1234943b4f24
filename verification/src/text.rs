//! Operations on strings, stated over their characters.
use vstd::prelude::*;
use vstd::string::*;

verus! {

/// The views of an optional string.
pub open spec fn opt_view(s: Option<String>) -> Option<Seq<char>> {
    match s {
        Some(s) => Some(s@),
        None => None,
    }
}

/// The views of a list of strings.
pub open spec fn strings_view(s: Seq<String>) -> Seq<Seq<char>> {
    s.map_values(|x: String| x@)
}

/// Compares two optional strings.
pub fn same_opt(a: &Option<String>, b: &Option<String>) -> (r: bool)
    ensures
        r == (opt_view(*a) == opt_view(*b)),
{
    match (a, b) {
        (Some(x), Some(y)) => *x == *y,
        (None, None) => true,
        _ => false,
    }
}

/// Compares two lists of strings.
pub fn same_strings(a: &Vec<String>, b: &Vec<String>) -> (r: bool)
    ensures
        r == (strings_view(a@) == strings_view(b@)),
{
    if a.len() != b.len() {
        assert(strings_view(a@).len() != strings_view(b@).len());
        return false;
    }
    let mut i: usize = 0;
    while i < a.len()
        invariant
            i <= a.len(),
            a.len() == b.len(),
            forall|j: int| 0 <= j < i ==> a@[j]@ == b@[j]@,
        decreases a.len() - i,
    {
        if a[i] != b[i] {
            assert(strings_view(a@)[i as int] != strings_view(b@)[i as int]);
            return false;
        }
        i = i + 1;
    }
    assert(strings_view(a@) =~= strings_view(b@));
    true
}

/// Copies a list of strings.
pub fn clone_strings(a: &Vec<String>) -> (r: Vec<String>)
    ensures
        r@ == a@,
{
    let mut r: Vec<String> = Vec::new();
    let mut i: usize = 0;
    while i < a.len()
        invariant
            i <= a.len(),
            r@ == a@.take(i as int),
        decreases a.len() - i,
    {
        r.push(a[i].clone());
        assert(a@.take(i + 1) =~= a@.take(i as int).push(a@[i as int]));
        i = i + 1;
    }
    assert(a@.take(a@.len() as int) =~= a@);
    r
}

/// What is left of `s` behind `prefix`, if `s` begins with it.
pub open spec fn stripped(s: Seq<char>, prefix: Seq<char>) -> Option<Seq<char>> {
    if prefix.is_prefix_of(s) {
        Some(s.skip(prefix.len() as int))
    } else {
        None
    }
}

/// The position of the first `c` in `s`, or the length of `s` if there is none.
pub open spec fn first_position(s: Seq<char>, c: char) -> nat
    decreases s.len(),
{
    if s.len() == 0 || s[0] == c {
        0
    } else {
        1 + first_position(s.drop_first(), c)
    }
}

/// The parts of `s` before and behind its first `c`.
pub open spec fn split_around(s: Seq<char>, c: char) -> Option<(Seq<char>, Seq<char>)> {
    let i = first_position(s, c) as int;
    if i < s.len() {
        Some((s.take(i), s.skip(i + 1)))
    } else {
        None
    }
}

/// What characterises the first position of a character.
pub proof fn lemma_first_position(s: Seq<char>, c: char, i: int)
    requires
        0 <= i <= s.len(),
        forall|j: int| 0 <= j < i ==> s[j] != c,
        i < s.len() ==> s[i] == c,
    ensures
        first_position(s, c) == i,
    decreases s.len(),
{
    if i > 0 {
        let rest = s.drop_first();
        assert(forall|j: int| 0 <= j < i - 1 ==> rest[j] == s[j + 1]);
        lemma_first_position(rest, c, i - 1);
    }
}

/// Removes `prefix` from the front of `s`.
pub fn strip_prefix<'a>(s: &'a str, prefix: &str) -> (r: Option<&'a str>)
    ensures
        r matches Some(rest) ==> stripped(s@, prefix@) == Some(rest@),
        r is None ==> stripped(s@, prefix@) is None,
{
    let n: usize = s.unicode_len();
    let m: usize = prefix.unicode_len();
    if m > n {
        return None;
    }
    let mut i: usize = 0;
    while i < m
        invariant
            m <= n,
            n == s@.len(),
            m == prefix@.len(),
            i <= m,
            forall|j: int| 0 <= j < i ==> s@[j] == prefix@[j],
        decreases m - i,
    {
        if s.get_char(i) != prefix.get_char(i) {
            assert(s@[i as int] != prefix@[i as int]);
            return None;
        }
        i = i + 1;
    }
    assert(prefix@ =~= s@.subrange(0, prefix@.len() as int));
    Some(s.substring_char(m, n))
}

/// A prefix can be taken off again.
pub proof fn lemma_stripped(prefix: Seq<char>, rest: Seq<char>)
    ensures
        stripped(prefix + rest, prefix) == Some(rest),
{
    assert(prefix =~= (prefix + rest).subrange(0, prefix.len() as int));
    assert((prefix + rest).skip(prefix.len() as int) =~= rest);
}

/// A string that begins with one prefix does not begin with another that
/// differs from it at some position.
pub proof fn lemma_other_prefix(s: Seq<char>, prefix: Seq<char>, other: Seq<char>, i: int)
    requires
        stripped(s, prefix) is Some,
        0 <= i < prefix.len(),
        i < other.len(),
        prefix[i] != other[i],
    ensures
        stripped(s, other) is None,
{
    if other.is_prefix_of(s) {
        assert(s.subrange(0, prefix.len() as int)[i] == s[i]);
        assert(s.subrange(0, other.len() as int)[i] == s[i]);
    }
}

/// Compares two string slices.
pub fn same_text(a: &str, b: &str) -> (r: bool)
    ensures
        r == (a@ == b@),
{
    match strip_prefix(a, b) {
        Some(rest) => {
            assert(rest@.len() == 0 ==> a@ =~= b@);
            rest.is_empty()
        },
        None => false,
    }
}

/// Splits `s` at its first `c`.
pub fn split_once<'a>(s: &'a str, c: char) -> (r: Option<(&'a str, &'a str)>)
    ensures
        r matches Some(parts) ==> split_around(s@, c) == Some((parts.0@, parts.1@)),
        r is None ==> split_around(s@, c) is None,
{
    let n: usize = s.unicode_len();
    let mut i: usize = 0;
    for x in it: s.chars()
        invariant
            i == it.index(),
            n == s@.len(),
            it.seq() == s@,
            forall|j: int| 0 <= j < i ==> s@[j] != c,
    {
        if x == c {
            proof {
                lemma_first_position(s@, c, i as int);
            }
            return Some((s.substring_char(0, i), s.substring_char(i + 1, n)));
        }
        i = i + 1;
    }
    proof {
        lemma_first_position(s@, c, s@.len() as int);
    }
    None
}

/// Whether `s` ends with `suffix`.
pub open spec fn has_suffix(s: Seq<char>, suffix: Seq<char>) -> bool {
    suffix.len() <= s.len() && s.skip(s.len() - suffix.len()) == suffix
}

/// Tests whether `s` ends with `suffix`.
pub fn ends_with(s: &str, suffix: &str) -> (r: bool)
    ensures
        r == has_suffix(s@, suffix@),
{
    let n: usize = s.unicode_len();
    let m: usize = suffix.unicode_len();
    if m > n {
        return false;
    }
    let mut i: usize = 0;
    while i < m
        invariant
            m <= n,
            n == s@.len(),
            m == suffix@.len(),
            i <= m,
            forall|j: int| 0 <= j < i ==> s@[n - m + j] == suffix@[j],
        decreases m - i,
    {
        if s.get_char(n - m + i) != suffix.get_char(i) {
            assert(s@.skip(n - m)[i as int] != suffix@[i as int]);
            return false;
        }
        i = i + 1;
    }
    assert(s@.skip(n - m) =~= suffix@);
    true
}

/// Whether `c` separates the components of a path, on any platform.
pub open spec fn is_separator(c: char) -> bool {
    c == '/' || c == '\\'
}

/// The longest end of `path` that holds no separator.
pub open spec fn basename_of(path: Seq<char>) -> Seq<char>
    decreases path.len(),
{
    if path.len() == 0 || is_separator(path.last()) {
        Seq::empty()
    } else {
        basename_of(path.drop_last()).push(path.last())
    }
}

proof fn lemma_basename_of(path: Seq<char>, from: int)
    requires
        0 <= from <= path.len(),
        from > 0 ==> is_separator(path[from - 1]),
        forall|j: int| from <= j < path.len() ==> !is_separator(path[j]),
    ensures
        basename_of(path) == path.skip(from),
    decreases path.len(),
{
    if from < path.len() {
        lemma_basename_of(path.drop_last(), from);
        assert(path.drop_last().skip(from).push(path.last()) =~= path.skip(from));
    } else {
        assert(path.skip(from) =~= Seq::<char>::empty());
    }
}

/// The last component of a path.
pub fn basename<'a>(path: &'a str) -> (r: &'a str)
    ensures
        r@ == basename_of(path@),
{
    let n: usize = path.unicode_len();
    let mut i: usize = 0;
    let mut from: usize = 0;
    for x in it: path.chars()
        invariant
            i == it.index(),
            n == path@.len(),
            it.seq() == path@,
            from <= i,
            from > 0 ==> is_separator(path@[from - 1]),
            forall|j: int| from <= j < i ==> !is_separator(path@[j]),
    {
        i = i + 1;
        if x == '/' || x == '\\' {
            from = i;
        }
    }
    proof {
        lemma_basename_of(path@, from as int);
    }
    path.substring_char(from, n)
}

/// The digit of value `d`.
pub open spec fn digit(d: nat) -> char {
    ('0' as int + d) as char
}

/// The decimal notation of `n`.
pub open spec fn decimal(n: nat) -> Seq<char>
    decreases n,
{
    if n < 10 {
        seq![digit(n)]
    } else {
        decimal(n / 10).push(digit(n % 10))
    }
}

fn digit_str(d: u32) -> (r: &'static str)
    requires
        d < 10,
    ensures
        r@ == seq![digit(d as nat)],
{
    proof {
        reveal_strlit("0");
        reveal_strlit("1");
        reveal_strlit("2");
        reveal_strlit("3");
        reveal_strlit("4");
        reveal_strlit("5");
        reveal_strlit("6");
        reveal_strlit("7");
        reveal_strlit("8");
        reveal_strlit("9");
    }
    let r = match d {
        0 => "0",
        1 => "1",
        2 => "2",
        3 => "3",
        4 => "4",
        5 => "5",
        6 => "6",
        7 => "7",
        8 => "8",
        _ => "9",
    };
    assert(r@ =~= seq![digit(d as nat)]);
    r
}

/// Writes `n` in decimal notation.
pub fn decimal_string(n: u32) -> (r: String)
    ensures
        r@ == decimal(n as nat),
    decreases n,
{
    if n < 10 {
        digit_str(n).to_owned()
    } else {
        let mut r = decimal_string(n / 10);
        r.append(digit_str(n % 10));
        assert(r@ =~= decimal(n as nat));
        r
    }
}

/// Why a string is no index.
#[derive(Clone, Copy, Debug, PartialEq, Eq, Structural)]
pub enum IndexError {
    /// The string is empty.
    Empty,
    /// A character stands where a digit is due.
    InvalidDigit,
    /// The number does not fit in a `usize`.
    Overflow,
}

/// The value of a decimal digit.
pub open spec fn digit_value(c: char) -> Option<nat> {
    if '0' <= c && c <= '9' {
        Some((c as int - '0' as int) as nat)
    } else {
        None
    }
}

/// One digit `c` read behind a number of value `value`.
pub open spec fn read_digit(value: nat, c: char) -> Result<nat, IndexError> {
    match digit_value(c) {
        None => Err(IndexError::InvalidDigit),
        Some(d) => if value * 10 + d > usize::MAX {
            Err(IndexError::Overflow)
        } else {
            Ok(value * 10 + d)
        },
    }
}

/// The digits `s` read from left to right up to the first that does not go on.
pub open spec fn read_digits(s: Seq<char>) -> Result<nat, IndexError>
    decreases s.len(),
{
    if s.len() == 0 {
        Ok(0)
    } else {
        match read_digits(s.drop_last()) {
            Err(e) => Err(e),
            Ok(value) => read_digit(value, s.last()),
        }
    }
}

/// The index that `s` denotes: digits, behind a plus sign or not.
pub open spec fn index_of(s: Seq<char>) -> Result<nat, IndexError> {
    if s.len() == 0 {
        Err(IndexError::Empty)
    } else if s.len() == 1 && s[0] == '+' {
        Err(IndexError::InvalidDigit)
    } else if s[0] == '+' {
        read_digits(s.skip(1))
    } else {
        read_digits(s)
    }
}

proof fn lemma_read_digits_stops(s: Seq<char>, i: int)
    requires
        0 <= i <= s.len(),
        read_digits(s.take(i)) is Err,
    ensures
        read_digits(s) == read_digits(s.take(i)),
    decreases s.len(),
{
    if i < s.len() {
        assert(s.drop_last().take(i) =~= s.take(i));
        lemma_read_digits_stops(s.drop_last(), i);
    } else {
        assert(s.take(i) =~= s);
    }
}

fn parse_digits(s: &str) -> (r: Result<usize, IndexError>)
    ensures
        r matches Ok(index) ==> read_digits(s@) == Ok::<nat, IndexError>(index as nat),
        r matches Err(e) ==> read_digits(s@) == Err::<nat, IndexError>(e),
{
    let mut value: usize = 0;
    assert(s@.take(0) =~= Seq::<char>::empty());
    for x in it: s.chars()
        invariant
            it.seq() == s@,
            read_digits(s@.take(it.index() as int)) == Ok::<nat, IndexError>(value as nat),
    {
        let ghost i = it.index() as int;
        proof {
            assert(s@.take(i + 1).drop_last() =~= s@.take(i));
            assert(s@.take(i + 1).last() == x);
        }
        if x < '0' || x > '9' {
            proof {
                lemma_read_digits_stops(s@, i + 1);
            }
            return Err(IndexError::InvalidDigit);
        }
        let d: usize = (x as u32 - 48) as usize;
        if value > (usize::MAX - d) / 10 {
            proof {
                lemma_read_digits_stops(s@, i + 1);
            }
            return Err(IndexError::Overflow);
        }
        value = value * 10 + d;
    }
    assert(s@.take(s@.len() as int) =~= s@);
    Ok(value)
}

/// Reads an index in decimal notation.
pub fn parse_index(s: &str) -> (r: Result<usize, IndexError>)
    ensures
        r matches Ok(index) ==> index_of(s@) == Ok::<nat, IndexError>(index as nat),
        r matches Err(e) ==> index_of(s@) == Err::<nat, IndexError>(e),
{
    if s.is_empty() {
        return Err(IndexError::Empty);
    }
    if s.get_char(0) == '+' {
        let n: usize = s.unicode_len();
        if n == 1 {
            return Err(IndexError::InvalidDigit);
        }
        parse_digits(s.substring_char(1, n))
    } else {
        parse_digits(s)
    }
}

/// The decimal notation of an index reads back as that index.
pub proof fn law_decimal_index_reads_back(n: nat)
    requires
        n <= usize::MAX,
    ensures
        index_of(decimal(n)) == Ok::<nat, IndexError>(n),
{
    lemma_read_digits_decimal(n);
    lemma_decimal_first_digit(n);
}

proof fn lemma_decimal_first_digit(n: nat)
    ensures
        decimal(n).len() > 0,
        digit_value(decimal(n)[0]) is Some,
    decreases n,
{
    if n >= 10 {
        lemma_decimal_first_digit(n / 10);
    }
}

proof fn lemma_read_digits_decimal(n: nat)
    requires
        n <= usize::MAX,
    ensures
        read_digits(decimal(n)) == Ok::<nat, IndexError>(n),
    decreases n,
{
    if n < 10 {
        assert(decimal(n).drop_last() =~= Seq::<char>::empty());
        assert(read_digits(decimal(n).drop_last()) == Ok::<nat, IndexError>(0nat));
    } else {
        lemma_read_digits_decimal(n / 10);
        assert(decimal(n).drop_last() =~= decimal(n / 10));
    }
}

} // verus!
