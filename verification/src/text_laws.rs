//! What holds of strings: prefixes, separators, names of files and numbers.
use crate::text::{
    basename_of, decimal, first_position, has_suffix, index_of, is_separator,
    lemma_first_position, lemma_stripped, opt_view, read_digits, split_around, strings_view,
    stripped, IndexError,
};
use vstd::prelude::*;

verus! {

/// An optional string is seen as its characters.
pub proof fn law_optional_text(s: Option<String>)
    ensures
        s is Some <==> opt_view(s) is Some,
        s matches Some(text) ==> opt_view(s) == Some(text@),
{
}

/// A list of strings is seen as the characters of each, in order.
pub proof fn law_list_of_texts(s: Seq<String>)
    ensures
        strings_view(s).len() == s.len(),
        forall|i: int| 0 <= i < s.len() ==> #[trigger] strings_view(s)[i] == s[i]@,
{
}

/// A prefix can be taken off exactly where the string is the prefix and a rest,
/// and then the rest is left.
pub proof fn law_prefix_and_rest(s: Seq<char>, prefix: Seq<char>, rest: Seq<char>)
    ensures
        stripped(s, prefix) == Some(rest) <==> s == prefix + rest,
        stripped(s, prefix) is None ==> s != prefix + rest,
{
    lemma_stripped(prefix, rest);
    if prefix.is_prefix_of(s) {
        assert(s =~= prefix + s.skip(prefix.len() as int));
    }
}

proof fn lemma_first_position_is_first(s: Seq<char>, c: char)
    ensures
        first_position(s, c) <= s.len(),
        forall|j: int| 0 <= j < first_position(s, c) ==> s[j] != c,
        first_position(s, c) < s.len() ==> s[first_position(s, c) as int] == c,
    decreases s.len(),
{
    if s.len() > 0 && s[0] != c {
        let rest = s.drop_first();
        lemma_first_position_is_first(rest, c);
        assert forall|j: int| 0 <= j < first_position(s, c) implies s[j] != c by {
            if j > 0 {
                assert(rest[j - 1] == s[j]);
            }
        }
    }
}

/// A string is split exactly where it holds the character, and then into what
/// stands before the first one and what stands behind it.
pub proof fn law_split_at_first(s: Seq<char>, c: char, before: Seq<char>, behind: Seq<char>)
    ensures
        split_around(s, c) == Some((before, behind)) <==> s == before.push(c) + behind
            && !before.contains(c),
        split_around(s, c) is None <==> !s.contains(c),
{
    let n = first_position(s, c) as int;
    lemma_first_position_is_first(s, c);
    if n < s.len() {
        assert(s.contains(s[n]));
        assert(s =~= s.take(n).push(c) + s.skip(n + 1));
        assert(!s.take(n).contains(c));
    } else {
        assert(!s.contains(c));
    }
    if s == before.push(c) + behind && !before.contains(c) {
        assert(s[before.len() as int] == c);
        assert forall|j: int| 0 <= j < before.len() implies s[j] != c by {
            assert(before.contains(before[j]));
        }
        lemma_first_position(s, c, before.len() as int);
        assert(s.take(before.len() as int) =~= before);
        assert(s.skip(before.len() as int + 1) =~= behind);
    }
}

/// A string ends with a suffix exactly where it is something and the suffix.
pub proof fn law_suffix(s: Seq<char>, suffix: Seq<char>, front: Seq<char>)
    ensures
        s == front + suffix ==> has_suffix(s, suffix),
        has_suffix(s, suffix) ==> suffix.len() <= s.len() && s == s.take(s.len() - suffix.len())
            + suffix,
{
    if s == front + suffix {
        assert(s.skip(s.len() - suffix.len()) =~= suffix);
    }
    if has_suffix(s, suffix) {
        assert(s =~= s.take(s.len() - suffix.len()) + suffix);
    }
}

/// The name of a file is the end of its path that holds no slash of either
/// kind, and is as long as it can be.
pub proof fn law_file_name(path: Seq<char>)
    ensures
        basename_of(path).len() <= path.len(),
        basename_of(path) == path.skip(path.len() - basename_of(path).len()),
        !basename_of(path).contains('/'),
        !basename_of(path).contains('\\'),
        basename_of(path).len() < path.len() ==> {
            let c = path[path.len() - basename_of(path).len() - 1];
            c == '/' || c == '\\'
        },
    decreases path.len(),
{
    let name = basename_of(path);
    if path.len() > 0 && !is_separator(path.last()) {
        let rest = path.drop_last();
        law_file_name(rest);
        let shorter = basename_of(rest);
        assert(name == shorter.push(path.last()));
        assert forall|i: int| 0 <= i < name.len() implies name[i] != '/' && name[i] != '\\' by {
            if i < shorter.len() {
                assert(shorter.contains(shorter[i]));
            }
        }
        assert(name =~= path.skip(path.len() - name.len()));
    } else {
        assert(name =~= path.skip(path.len() as int));
    }
}

/// Decimal notation: a number below ten is one digit, and ten times a number
/// and a digit more is the notation of the number with the digit behind it.
pub proof fn law_decimal_notation(n: nat, d: nat)
    requires
        d < 10,
    ensures
        decimal(d) == seq![('0' as int + d) as char],
        n > 0 ==> decimal(10 * n + d) == decimal(n).push(('0' as int + d) as char),
{
    if n > 0 {
        assert((10 * n + d) / 10 == n);
        assert((10 * n + d) % 10 == d);
    }
}

/// One more digit behind an index makes ten times the index and the digit,
/// unless that is too large; anything else behind it is refused.
pub proof fn law_index_with_digit(s: Seq<char>, n: nat, c: char)
    requires
        index_of(s) == Ok::<nat, IndexError>(n),
    ensures
        '0' <= c <= '9' && 10 * n + (c as int - '0' as int) <= usize::MAX ==> index_of(s.push(c))
            == Ok::<nat, IndexError>((10 * n + (c as int - '0' as int)) as nat),
        '0' <= c <= '9' && 10 * n + (c as int - '0' as int) > usize::MAX ==> index_of(s.push(c))
            == Err::<nat, IndexError>(IndexError::Overflow),
        !('0' <= c <= '9') ==> index_of(s.push(c)) == Err::<nat, IndexError>(
            IndexError::InvalidDigit,
        ),
{
    let t = s.push(c);
    assert(t[0] == s[0]);
    if s[0] == '+' {
        assert(t.skip(1) =~= s.skip(1).push(c));
        assert(s.skip(1).push(c).drop_last() =~= s.skip(1));
    } else {
        assert(t.drop_last() =~= s);
    }
}

/// An index is one digit or more; what is refused stays refused with more
/// behind it, but for a plus sign alone; and a plus sign in front does not count.
pub proof fn law_index_notation(c: char, s: Seq<char>, t: Seq<char>)
    ensures
        index_of(Seq::empty()) == Err::<nat, IndexError>(IndexError::Empty),
        '0' <= c <= '9' ==> index_of(seq![c]) == Ok::<nat, IndexError>(
            (c as int - '0' as int) as nat,
        ),
        !('0' <= c <= '9') ==> index_of(seq![c]) == Err::<nat, IndexError>(
            IndexError::InvalidDigit,
        ),
        s.len() > 0 && s[0] != '+' ==> index_of(seq!['+'] + s) == index_of(s),
        s.len() > 0 && s[0] == '+' ==> index_of(seq!['+'] + s) == Err::<nat, IndexError>(
            IndexError::InvalidDigit,
        ),
        s.len() > 0 && s != seq!['+'] && index_of(s) is Err ==> index_of(s + t) == index_of(s),
{
    assert(seq![c].drop_last() =~= Seq::<char>::empty());
    assert(read_digits(Seq::<char>::empty()) == Ok::<nat, IndexError>(0));
    if s.len() > 0 {
        let plus = seq!['+'] + s;
        assert(plus.skip(1) =~= s);
        if s[0] == '+' {
            lemma_refused_at_first(s);
        }
        if s != seq!['+'] && index_of(s) is Err {
            assert((s + t)[0] == s[0]);
            if s[0] == '+' {
                if s.len() == 1 {
                    assert(s =~= seq!['+']);
                }
                assert((s + t).skip(1) =~= s.skip(1) + t);
                lemma_stays_refused(s.skip(1), t);
            } else {
                lemma_stays_refused(s, t);
            }
        }
    }
}

proof fn lemma_refused_at_first(s: Seq<char>)
    requires
        s.len() > 0,
        s[0] == '+',
    ensures
        read_digits(s) == Err::<nat, IndexError>(IndexError::InvalidDigit),
    decreases s.len(),
{
    if s.len() > 1 {
        lemma_refused_at_first(s.drop_last());
    } else {
        assert(s.drop_last() =~= Seq::<char>::empty());
        assert(read_digits(s.drop_last()) == Ok::<nat, IndexError>(0));
    }
}

proof fn lemma_stays_refused(s: Seq<char>, t: Seq<char>)
    requires
        read_digits(s) is Err,
    ensures
        read_digits(s + t) == read_digits(s),
    decreases t.len(),
{
    if t.len() == 0 {
        assert(s + t =~= s);
    } else {
        lemma_stays_refused(s, t.drop_last());
        assert((s + t).drop_last() =~= s + t.drop_last());
    }
}

} // verus!
