//! Text helpers: digits, joins, case-insensitive comparison and filtering of
//! string lists, each stated over the strings' character sequences.
use vstd::prelude::*;
use vstd::string::*;

verus! {

/// Appends one character to a string: `String::push`, which the standard
/// library documents as appending the character to the end of the string.
#[verifier::external_body]
pub(crate) fn push_char(s: &mut String, c: char)
    ensures
        final(s)@ == old(s)@.push(c),
{
    s.push(c);
}

/// The character that stands for a digit below sixteen, lower case.
pub open spec fn digit_char(d: int) -> char {
    if d < 10 {
        (d + 48) as char
    } else {
        (d + 87) as char
    }
}

/// Lower-case hexadecimal digits of `n`, without leading zeros (`"0"` for zero).
pub open spec fn hex_digits(n: nat) -> Seq<char>
    decreases n,
{
    if n < 16 {
        seq![digit_char(n as int)]
    } else {
        hex_digits(n / 16).push(digit_char((n % 16) as int))
    }
}

/// Decimal digits of `n`, without leading zeros (`"0"` for zero).
pub open spec fn decimal_digits(n: nat) -> Seq<char>
    decreases n,
{
    if n < 10 {
        seq![digit_char(n as int)]
    } else {
        decimal_digits(n / 10).push(digit_char((n % 10) as int))
    }
}

fn digit(d: u64) -> (c: char)
    requires
        d < 16,
    ensures
        c == digit_char(d as int),
{
    let b: u8 = d as u8;
    if b < 10 {
        (b + 48) as char
    } else {
        (b + 87) as char
    }
}

/// Appends `n` in lower-case hexadecimal, as `{:x}` writes it.
pub fn push_hex(s: &mut String, n: u64)
    ensures
        final(s)@ == old(s)@ + hex_digits(n as nat),
    decreases n,
{
    if n >= 16 {
        push_hex(s, n / 16);
    }
    push_char(s, digit(n % 16));
    assert(final(s)@ =~= old(s)@ + hex_digits(n as nat));
}

/// Appends `n` in decimal, as `{}` writes it.
pub fn push_decimal(s: &mut String, n: u64)
    ensures
        final(s)@ == old(s)@ + decimal_digits(n as nat),
    decreases n,
{
    if n >= 10 {
        push_decimal(s, n / 10);
    }
    push_char(s, digit(n % 10));
    assert(final(s)@ =~= old(s)@ + decimal_digits(n as nat));
}

/// The code of a character after ASCII lower-casing: `A`..`Z` become
/// `a`..`z`, every other character is left as it is.
pub open spec fn folded_code(c: char) -> int {
    let v = c as int;
    if 65 <= v <= 90 {
        v + 32
    } else {
        v
    }
}

/// Two character sequences are equal when ASCII letters are compared
/// without regard to case (`str::eq_ignore_ascii_case`).
pub open spec fn eq_ignore_case(a: Seq<char>, b: Seq<char>) -> bool {
    &&& a.len() == b.len()
    &&& forall|i: int| 0 <= i < a.len() ==> #[trigger] folded_code(a[i]) == folded_code(b[i])
}

fn folded(c: char) -> (r: u32)
    ensures
        r == folded_code(c),
{
    let v: u32 = c as u32;
    if 65 <= v && v <= 90 {
        v + 32
    } else {
        v
    }
}

/// Compares two strings without regard to the case of ASCII letters.
pub fn eq_ignore_ascii_case(a: &str, b: &str) -> (r: bool)
    ensures
        r == eq_ignore_case(a@, b@),
{
    let n = a.unicode_len();
    let m = b.unicode_len();
    if n != m {
        return false;
    }
    let mut i: usize = 0;
    while i < n
        invariant
            n == a@.len(),
            m == b@.len(),
            n == m,
            i <= n,
            forall|j: int| 0 <= j < i ==> #[trigger] folded_code(a@[j]) == folded_code(b@[j]),
        decreases n - i,
    {
        let x = a.get_char(i);
        let y = b.get_char(i);
        if folded(x) != folded(y) {
            assert(folded_code(a@[i as int]) != folded_code(b@[i as int]));
            return false;
        }
        i = i + 1;
    }
    true
}

/// Exact comparison of two string slices.
pub fn str_eq(a: &str, b: &str) -> (r: bool)
    ensures
        r == (a@ == b@),
{
    let x = a.to_owned();
    let y = b.to_owned();
    x == y
}

/// The character sequences of a list of strings.
pub open spec fn views(s: Seq<String>) -> Seq<Seq<char>> {
    s.map_values(|x: String| x@)
}

/// The items joined with `sep` between each two neighbours.
pub open spec fn join(items: Seq<Seq<char>>, sep: Seq<char>) -> Seq<char>
    decreases items.len(),
{
    if items.len() == 0 {
        Seq::empty()
    } else if items.len() == 1 {
        items[0]
    } else {
        join(items.drop_last(), sep) + sep + items.last()
    }
}

/// Appends the strings of `items` joined with `sep`.
pub fn push_joined(out: &mut String, items: &Vec<String>, sep: &str)
    ensures
        final(out)@ == old(out)@ + join(views(items@), sep@),
{
    let ghost start = out@;
    let ghost all = views(items@);
    let n = items.len();
    let mut i: usize = 0;
    while i < n
        invariant
            n == items@.len(),
            all == views(items@),
            i <= n,
            out@ == start + join(all.take(i as int), sep@),
        decreases n - i,
    {
        if i > 0 {
            out.append(sep);
        }
        out.append(items[i].as_str());
        assert(all.take(i + 1).drop_last() =~= all.take(i as int));
        assert(all.take(i + 1).last() == items@[i as int]@);
        if i == 0 {
            assert(join(all.take(0), sep@) =~= Seq::<char>::empty());
        }
        assert(out@ =~= start + join(all.take(i + 1), sep@));
        i = i + 1;
    }
    assert(all.take(n as int) =~= all);
}

/// The items that differ from `x`, in their order.
pub open spec fn remove_all(s: Seq<Seq<char>>, x: Seq<char>) -> Seq<Seq<char>>
    decreases s.len(),
{
    if s.len() == 0 {
        Seq::empty()
    } else {
        let r = remove_all(s.drop_last(), x);
        if s.last() == x {
            r
        } else {
            r.push(s.last())
        }
    }
}

/// What `remove_all` keeps does not hold `x`, and every item it keeps was there.
pub proof fn lemma_remove_all(s: Seq<Seq<char>>, x: Seq<char>)
    ensures
        !remove_all(s, x).contains(x),
        forall|y: Seq<char>| #[trigger] remove_all(s, x).contains(y) <==> (s.contains(y) && y != x),
        !s.contains(x) ==> remove_all(s, x) == s,
    decreases s.len(),
{
    if s.len() > 0 {
        lemma_remove_all(s.drop_last(), x);
        let r = remove_all(s.drop_last(), x);
        assert forall|y: Seq<char>| remove_all(s, x).contains(y) <==> (s.contains(y) && y != x) by {
            if s.contains(y) && y != x {
                let k = choose|k: int| 0 <= k < s.len() && s[k] == y;
                if k < s.len() - 1 {
                    assert(s.drop_last()[k] == y);
                    assert(s.drop_last().contains(y));
                    assert(r.contains(y));
                    let m = choose|m: int| 0 <= m < r.len() && r[m] == y;
                    assert(remove_all(s, x)[m] == y);
                } else {
                    assert(remove_all(s, x)[r.len() as int] == y);
                }
            }
            if remove_all(s, x).contains(y) {
                let k = choose|k: int| 0 <= k < remove_all(s, x).len() && remove_all(s, x)[k] == y;
                if k < r.len() {
                    assert(r[k] == y);
                    assert(r.contains(y));
                    let j = choose|j: int| 0 <= j < s.drop_last().len() && s.drop_last()[j] == y;
                    assert(s[j] == y);
                } else {
                    assert(s[s.len() - 1] == y);
                }
            }
        }
        if !s.contains(x) {
            assert(!s.drop_last().contains(x)) by {
                if s.drop_last().contains(x) {
                    let j = choose|j: int| 0 <= j < s.drop_last().len() && s.drop_last()[j] == x;
                    assert(s[j] == x);
                }
            }
            assert(s.last() != x) by {
                assert(s[s.len() - 1] == s.last());
            }
            assert(s.drop_last().push(s.last()) =~= s);
        }
    }
}

/// Dropping items keeps a list free of duplicates.
pub proof fn lemma_remove_all_no_duplicates(s: Seq<Seq<char>>, x: Seq<char>)
    requires
        s.no_duplicates(),
    ensures
        remove_all(s, x).no_duplicates(),
    decreases s.len(),
{
    if s.len() > 0 {
        let d = s.drop_last();
        assert(d.no_duplicates()) by {
            assert forall|i: int, j: int| 0 <= i < d.len() && 0 <= j < d.len() && i != j implies d[i] != d[j] by {
                assert(d[i] == s[i] && d[j] == s[j]);
            }
        }
        lemma_remove_all_no_duplicates(d, x);
        lemma_remove_all(d, x);
        let r = remove_all(d, x);
        if s.last() != x {
            assert(!d.contains(s.last())) by {
                if d.contains(s.last()) {
                    let j = choose|j: int| 0 <= j < d.len() && d[j] == s.last();
                    assert(s[j] == s[s.len() - 1]);
                }
            }
            assert(!r.contains(s.last()));
            let p = r.push(s.last());
            assert forall|i: int, j: int| 0 <= i < p.len() && 0 <= j < p.len() && i != j implies p[i] != p[j] by {
                if i == r.len() as int {
                    assert(p[j] == r[j]);
                } else if j == r.len() as int {
                    assert(p[i] == r[i]);
                } else {
                    assert(p[i] == r[i] && p[j] == r[j]);
                }
            }
        }
    }
}

/// A copy of the list without the strings equal to `x`.
pub fn without(v: &Vec<String>, x: &str) -> (r: Vec<String>)
    ensures
        views(r@) == remove_all(views(v@), x@),
{
    let ghost all = views(v@);
    let key = x.to_owned();
    let mut r: Vec<String> = Vec::new();
    let n = v.len();
    let mut i: usize = 0;
    while i < n
        invariant
            n == v@.len(),
            all == views(v@),
            key@ == x@,
            i <= n,
            views(r@) == remove_all(all.take(i as int), x@),
        decreases n - i,
    {
        assert(all.take(i + 1).drop_last() =~= all.take(i as int));
        assert(all.take(i + 1).last() == v@[i as int]@);
        if v[i] != key {
            r.push(v[i].clone());
            assert(views(r@) =~= remove_all(all.take(i as int), x@).push(v@[i as int]@));
        }
        i = i + 1;
    }
    assert(all.take(n as int) =~= all);
    r
}

/// A copy of a list of strings.
pub fn copy_strings(v: &Vec<String>) -> (r: Vec<String>)
    ensures
        r@ == v@,
{
    let mut r: Vec<String> = Vec::new();
    let n = v.len();
    let mut i: usize = 0;
    while i < n
        invariant
            n == v@.len(),
            i <= n,
            r@ == v@.take(i as int),
        decreases n - i,
    {
        r.push(v[i].clone());
        assert(r@ =~= v@.take(i + 1));
        i = i + 1;
    }
    assert(v@.take(n as int) =~= v@);
    r
}

/// Whether some string of the list equals `x`.
pub fn contains_str(v: &Vec<String>, x: &str) -> (r: bool)
    ensures
        r == views(v@).contains(x@),
{
    let key = x.to_owned();
    let n = v.len();
    let mut i: usize = 0;
    while i < n
        invariant
            n == v@.len(),
            key@ == x@,
            i <= n,
            forall|j: int| 0 <= j < i ==> v@[j]@ != x@,
        decreases n - i,
    {
        if v[i] == key {
            assert(views(v@)[i as int] == x@);
            return true;
        }
        i = i + 1;
    }
    assert(!views(v@).contains(x@)) by {
        if views(v@).contains(x@) {
            let j = choose|j: int| 0 <= j < views(v@).len() && views(v@)[j] == x@;
            assert(v@[j]@ == x@);
        }
    }
    false
}

/// Whether some string of the list equals `x` without regard to ASCII case.
pub fn contains_ignore_case(v: &Vec<String>, x: &str) -> (r: bool)
    ensures
        r == exists|j: int| 0 <= j < v@.len() && eq_ignore_case(#[trigger] v@[j]@, x@),
{
    let n = v.len();
    let mut i: usize = 0;
    while i < n
        invariant
            n == v@.len(),
            i <= n,
            forall|j: int| 0 <= j < i ==> !eq_ignore_case(#[trigger] v@[j]@, x@),
        decreases n - i,
    {
        if eq_ignore_ascii_case(v[i].as_str(), x) {
            return true;
        }
        i = i + 1;
    }
    false
}

/// A character after ASCII lower-casing (`char::to_ascii_lowercase`).
pub open spec fn ascii_lower(c: char) -> char {
    if 'A' <= c && c <= 'Z' {
        ((c as int) + 32) as char
    } else {
        c
    }
}

/// A character after ASCII upper-casing (`char::to_ascii_uppercase`).
pub open spec fn ascii_upper(c: char) -> char {
    if 'a' <= c && c <= 'z' {
        ((c as int) - 32) as char
    } else {
        c
    }
}

/// A text after ASCII lower-casing (`str::to_ascii_lowercase`).
pub open spec fn ascii_lowercase(s: Seq<char>) -> Seq<char> {
    Seq::new(s.len(), |i: int| ascii_lower(s[i]))
}

/// A text after ASCII upper-casing (`str::to_ascii_uppercase`).
pub open spec fn ascii_uppercase(s: Seq<char>) -> Seq<char> {
    Seq::new(s.len(), |i: int| ascii_upper(s[i]))
}

proof fn lemma_fold_is_lower(c: char)
    ensures
        folded_code(c) == ascii_lower(c) as int,
        folded_code(ascii_upper(c)) == folded_code(c),
{
}

/// Comparison without regard to ASCII case is exactly equality after
/// lower-casing both texts; so a text equals its lower-cased and its
/// upper-cased form, and the two forms equal each other.
pub proof fn lemma_eq_ignore_case_is_lowercase_equality(a: Seq<char>, b: Seq<char>)
    ensures
        eq_ignore_case(a, b) <==> ascii_lowercase(a) == ascii_lowercase(b),
        eq_ignore_case(a, ascii_lowercase(a)),
        eq_ignore_case(a, ascii_uppercase(a)),
        eq_ignore_case(ascii_lowercase(a), ascii_uppercase(a)),
{
    assert forall|c: char| #[trigger] folded_code(c) == ascii_lower(c) as int by {
        lemma_fold_is_lower(c);
    }
    assert forall|c: char| #[trigger] folded_code(ascii_upper(c)) == folded_code(c) by {
        lemma_fold_is_lower(c);
    }
    assert forall|c: char| #[trigger] folded_code(ascii_lower(c)) == folded_code(c) by {
        lemma_fold_is_lower(c);
        lemma_fold_is_lower(ascii_lower(c));
    }
    if eq_ignore_case(a, b) {
        assert forall|i: int| 0 <= i < a.len() implies ascii_lowercase(a)[i] == ascii_lowercase(b)[i] by {
            assert(folded_code(a[i]) == folded_code(b[i]));
            assert(ascii_lower(a[i]) as int == ascii_lower(b[i]) as int);
        }
        assert(ascii_lowercase(a) =~= ascii_lowercase(b));
    }
    if ascii_lowercase(a) == ascii_lowercase(b) {
        assert(a.len() == b.len()) by {
            assert(ascii_lowercase(a).len() == a.len());
            assert(ascii_lowercase(b).len() == b.len());
        }
        assert forall|i: int| 0 <= i < a.len() implies #[trigger] folded_code(a[i]) == folded_code(b[i]) by {
            assert(ascii_lowercase(a)[i] == ascii_lowercase(b)[i]);
        }
    }
    assert forall|i: int| 0 <= i < a.len() implies #[trigger] folded_code(a[i]) == folded_code(
        ascii_lowercase(a)[i],
    ) by {
        assert(ascii_lowercase(a)[i] == ascii_lower(a[i]));
    }
    assert forall|i: int| 0 <= i < a.len() implies #[trigger] folded_code(a[i]) == folded_code(
        ascii_uppercase(a)[i],
    ) by {
        assert(ascii_uppercase(a)[i] == ascii_upper(a[i]));
    }
    assert forall|i: int| 0 <= i < a.len() implies #[trigger] folded_code(ascii_lowercase(a)[i])
        == folded_code(ascii_uppercase(a)[i]) by {
        assert(ascii_uppercase(a)[i] == ascii_upper(a[i]));
        assert(ascii_lowercase(a)[i] == ascii_lower(a[i]));
    }
}

/// `x` occurs in `s` as a run of consecutive characters.
pub open spec fn occurs_in(x: Seq<char>, s: Seq<char>) -> bool {
    exists|i: int| 0 <= i <= s.len() - x.len() && #[trigger] s.subrange(i, i + x.len()) == x
}

/// A text put between two others occurs in the result.
pub proof fn lemma_occurs_between(a: Seq<char>, x: Seq<char>, b: Seq<char>)
    ensures
        occurs_in(x, a + x + b),
{
    let s = a + x + b;
    assert(s.subrange(a.len() as int, a.len() + x.len() as int) =~= x);
}

/// Each item of a join stands in it between two texts.
pub proof fn lemma_join_holds_item(items: Seq<Seq<char>>, sep: Seq<char>, i: int) -> (ab: (Seq<char>, Seq<char>))
    requires
        0 <= i < items.len(),
    ensures
        join(items, sep) == ab.0 + items[i] + ab.1,
    decreases items.len(),
{
    if items.len() == 1 {
        assert(join(items, sep) =~= Seq::<char>::empty() + items[i] + Seq::<char>::empty());
        (Seq::<char>::empty(), Seq::<char>::empty())
    } else if i == items.len() - 1 {
        let a = join(items.drop_last(), sep) + sep;
        assert(join(items, sep) =~= a + items[i] + Seq::<char>::empty());
        (a, Seq::<char>::empty())
    } else {
        let (a, b) = lemma_join_holds_item(items.drop_last(), sep, i);
        assert(items.drop_last()[i] == items[i]);
        let b2 = b + sep + items.last();
        assert(join(items, sep) =~= a + items[i] + b2);
        (a, b2)
    }
}

} // verus!
