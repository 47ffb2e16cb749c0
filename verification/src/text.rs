//! Text: comparing, searching and cutting strings, character by character.

use vstd::prelude::*;

verus! {

/// Calls `==` of `str`: two strings are the same when they hold the same
/// characters.
#[verifier::external_body]
pub(crate) fn same_text(a: &str, b: &str) -> (r: bool)
    ensures
        r == (a@ == b@),
{
    a == b
}

pub open spec fn has_prefix(s: Seq<char>, prefix: Seq<char>) -> bool {
    s.len() >= prefix.len() && s.take(prefix.len() as int) == prefix
}

pub open spec fn has_suffix(s: Seq<char>, suffix: Seq<char>) -> bool {
    s.len() >= suffix.len() && s.skip(s.len() - suffix.len()) == suffix
}

/// The characters with the Unicode property White_Space.
pub open spec fn is_white_space(c: char) -> bool {
    let n = c as u32;
    ||| 9 <= n <= 13
    ||| n == 32
    ||| n == 0x85
    ||| n == 0xa0
    ||| n == 0x1680
    ||| 0x2000 <= n <= 0x200a
    ||| n == 0x2028
    ||| n == 0x2029
    ||| n == 0x202f
    ||| n == 0x205f
    ||| n == 0x3000
}

/// A text without its leading white space.
pub open spec fn without_leading_space(s: Seq<char>) -> Seq<char>
    decreases s.len(),
{
    if s.len() > 0 && is_white_space(s[0]) {
        without_leading_space(s.skip(1))
    } else {
        s
    }
}

/// A text without its trailing white space.
pub open spec fn without_trailing_space(s: Seq<char>) -> Seq<char>
    decreases s.len(),
{
    if s.len() > 0 && is_white_space(s.last()) {
        without_trailing_space(s.drop_last())
    } else {
        s
    }
}

/// A text without white space at its ends.
pub open spec fn trimmed(s: Seq<char>) -> Seq<char> {
    without_trailing_space(without_leading_space(s))
}

/// Texts with a separator between each two of them.
pub open spec fn joined(parts: Seq<Seq<char>>, separator: Seq<char>) -> Seq<char>
    decreases parts.len(),
{
    if parts.len() == 0 {
        Seq::empty()
    } else if parts.len() == 1 {
        parts[0]
    } else {
        joined(parts.drop_last(), separator) + separator + parts.last()
    }
}

/// The contents of a list of strings.
pub open spec fn texts(strings: Seq<String>) -> Seq<Seq<char>> {
    strings.map_values(|s: String| s@)
}

fn white_space(c: char) -> (r: bool)
    ensures
        r == is_white_space(c),
{
    let n: u32 = c as u32;
    (9 <= n && n <= 13) || n == 32 || n == 0x85 || n == 0xa0 || n == 0x1680 || (0x2000 <= n && n
        <= 0x200a) || n == 0x2028 || n == 0x2029 || n == 0x202f || n == 0x205f || n == 0x3000
}

pub fn starts_with(s: &str, prefix: &str) -> (r: bool)
    ensures
        r == has_prefix(s@, prefix@),
{
    let n: usize = prefix.unicode_len();
    s.unicode_len() >= n && same_text(s.substring_char(0, n), prefix)
}

pub fn ends_with(s: &str, suffix: &str) -> (r: bool)
    ensures
        r == has_suffix(s@, suffix@),
{
    let n: usize = suffix.unicode_len();
    let len: usize = s.unicode_len();
    len >= n && same_text(s.substring_char(len - n, len), suffix)
}

/// What follows a prefix.
pub fn strip_prefix<'a>(s: &'a str, prefix: &str) -> (r: Option<&'a str>)
    ensures
        match r {
            Some(rest) => has_prefix(s@, prefix@) && rest@ == s@.skip(prefix@.len() as int),
            None => !has_prefix(s@, prefix@),
        },
{
    if starts_with(s, prefix) {
        Some(s.substring_char(prefix.unicode_len(), s.unicode_len()))
    } else {
        None
    }
}

/// The index of the first `wanted` in a text, or the text's length.
pub fn find_char(s: &str, wanted: char) -> (r: usize)
    ensures
        r <= s@.len(),
        forall|i: int| 0 <= i < r ==> s@[i] != wanted,
        r < s@.len() ==> s@[r as int] == wanted,
{
    let mut n: usize = 0;
    let len: usize = s.unicode_len();
    for c in it: s.chars()
        invariant
            it.seq() == s@,
            n == it.index(),
            len == s@.len(),
            forall|i: int| 0 <= i < n ==> s@[i] != wanted,
    {
        if c == wanted {
            return n;
        }
        n = n + 1;
    }
    n
}

proof fn lemma_leading_space(s: Seq<char>, start: int)
    requires
        0 <= start <= s.len(),
        forall|i: int| 0 <= i < start ==> is_white_space(#[trigger] s[i]),
        start < s.len() ==> !is_white_space(s[start]),
    ensures
        without_leading_space(s) == s.skip(start),
    decreases start,
{
    if start > 0 {
        assert(is_white_space(s[0]));
        lemma_leading_space(s.skip(1), start - 1);
        assert(s.skip(1).skip(start - 1) =~= s.skip(start));
    } else {
        assert(s.skip(0) =~= s);
    }
}

proof fn lemma_trailing_space(s: Seq<char>, end: int)
    requires
        0 <= end <= s.len(),
        forall|i: int| end <= i < s.len() ==> is_white_space(#[trigger] s[i]),
        end > 0 ==> !is_white_space(s[end - 1]),
    ensures
        without_trailing_space(s) == s.take(end),
    decreases s.len() - end,
{
    if end < s.len() {
        assert(is_white_space(s[s.len() - 1]));
        lemma_trailing_space(s.drop_last(), end);
        assert(s.drop_last().take(end) =~= s.take(end));
    } else {
        assert(s.take(end) =~= s);
    }
}

/// A text without white space at its ends.
pub fn trim<'a>(s: &'a str) -> (r: &'a str)
    ensures
        r@ == trimmed(s@),
{
    let len: usize = s.unicode_len();
    let mut n: usize = 0;
    // Where the first character that is no white space stands, and where the
    // last one ends.
    let mut start: usize = 0;
    let mut end: usize = 0;
    for c in it: s.chars()
        invariant
            it.seq() == s@,
            n == it.index(),
            len == s@.len(),
            start <= end <= n || (start == n && end == 0),
            start < n ==> start < end,
            forall|i: int| 0 <= i < start ==> is_white_space(#[trigger] s@[i]),
            start < n ==> !is_white_space(s@[start as int]),
            forall|i: int| end <= i < n ==> is_white_space(#[trigger] s@[i]),
            end > 0 ==> !is_white_space(s@[end - 1]),
    {
        if white_space(c) {
            if start == n {
                start = n + 1;
            }
        } else {
            end = n + 1;
        }
        n = n + 1;
    }
    if start == len {
        proof {
            lemma_leading_space(s@, start as int);
            assert(s@.skip(start as int) =~= Seq::empty());
            assert(s@.subrange(len as int, len as int) =~= Seq::empty());
        }
        s.substring_char(len, len)
    } else {
        proof {
            lemma_leading_space(s@, start as int);
            lemma_trailing_space(s@.skip(start as int), end - start);
            assert(s@.skip(start as int).take(end - start) =~= s@.subrange(
                start as int,
                end as int,
            ));
        }
        s.substring_char(start, end)
    }
}

/// Joins texts with a separator.
pub fn join(parts: &Vec<String>, separator: &str) -> (r: String)
    ensures
        r@ == joined(texts(parts@), separator@),
{
    let mut r = String::new();
    for i in 0..parts.len()
        invariant
            r@ == joined(texts(parts@).take(i as int), separator@),
    {
        let ghost done = texts(parts@).take(i + 1);
        assert(done.drop_last() =~= texts(parts@).take(i as int));
        if i > 0 {
            r.append(separator);
        } else {
            assert(r@ =~= Seq::empty());
            assert(Seq::<char>::empty() + parts@[0]@ =~= parts@[0]@);
        }
        r.append(parts[i].as_str());
    }
    assert(texts(parts@).take(parts@.len() as int) =~= texts(parts@));
    r
}

/// Joins two texts.
pub fn concat(a: &str, b: &str) -> (r: String)
    ensures
        r@ == a@ + b@,
{
    let mut r = a.to_string();
    r.append(b);
    r
}

/// Whether a list holds a text.
pub fn contains_text(list: &Vec<String>, wanted: &str) -> (r: bool)
    ensures
        r == texts(list@).contains(wanted@),
{
    for i in 0..list.len()
        invariant
            forall|j: int| 0 <= j < i ==> #[trigger] texts(list@)[j] != wanted@,
    {
        if same_text(list[i].as_str(), wanted) {
            assert(texts(list@)[i as int] == wanted@);
            return true;
        }
    }
    false
}

/// The order of texts: that of the first characters in which they differ. A text
/// stands before each longer one that begins with it.
pub open spec fn is_before(a: Seq<char>, b: Seq<char>) -> bool
    decreases a.len(),
{
    if b.len() == 0 {
        false
    } else if a.len() == 0 {
        true
    } else if a[0] == b[0] {
        is_before(a.skip(1), b.skip(1))
    } else {
        a[0] < b[0]
    }
}

/// Whether a text stands before another one.
pub fn text_before(a: &str, b: &str) -> (r: bool)
    ensures
        r == is_before(a@, b@),
{
    let n: usize = a.unicode_len();
    let m: usize = b.unicode_len();
    let mut i: usize = 0;
    assert(a@.skip(0) =~= a@);
    assert(b@.skip(0) =~= b@);
    while i < n && i < m
        invariant
            n == a@.len(),
            m == b@.len(),
            i <= n,
            i <= m,
            is_before(a@, b@) == is_before(a@.skip(i as int), b@.skip(i as int)),
        decreases n - i,
    {
        let x: char = a.get_char(i);
        let y: char = b.get_char(i);
        assert(a@.skip(i as int)[0] == x);
        assert(b@.skip(i as int)[0] == y);
        assert(a@.skip(i as int).skip(1) =~= a@.skip(i + 1));
        assert(b@.skip(i as int).skip(1) =~= b@.skip(i + 1));
        if x != y {
            return x < y;
        }
        i = i + 1;
    }
    i < m
}

/// Two different texts stand in one order or the other, and not in both.
pub proof fn lemma_order_total(a: Seq<char>, b: Seq<char>)
    ensures
        a == b ==> !is_before(a, b),
        a != b ==> is_before(a, b) != is_before(b, a),
    decreases a.len(),
{
    if a.len() > 0 && b.len() > 0 {
        if a[0] == b[0] {
            lemma_order_total(a.skip(1), b.skip(1));
            if a.skip(1) == b.skip(1) {
                assert forall|i: int| 0 <= i < a.len() implies a[i] == b[i] by {
                    if i > 0 {
                        assert(a.skip(1)[i - 1] == b.skip(1)[i - 1]);
                    }
                }
                assert(a.len() == a.skip(1).len() + 1 && b.len() == b.skip(1).len() + 1);
                assert(a =~= b);
            }
        }
    } else if a.len() == 0 && b.len() == 0 {
        assert(a =~= b);
    }
}

pub proof fn lemma_order_transitive(a: Seq<char>, b: Seq<char>, c: Seq<char>)
    requires
        is_before(a, b),
        is_before(b, c),
    ensures
        is_before(a, c),
    decreases a.len(),
{
    if a.len() > 0 && a[0] == b[0] && b[0] == c[0] {
        lemma_order_transitive(a.skip(1), b.skip(1), c.skip(1));
    }
}

/// Texts in order, none of them twice.
pub open spec fn is_sorted(list: Seq<Seq<char>>) -> bool {
    forall|i: int, j: int|
        0 <= i < j < list.len() ==> is_before(#[trigger] list[i], #[trigger] list[j])
}

/// Adds a text to a sorted list, unless it holds the text.
pub fn insert_sorted(list: &mut Vec<String>, s: &str)
    requires
        is_sorted(texts(old(list)@)),
    ensures
        is_sorted(texts(final(list)@)),
        forall|t: Seq<char>| #[trigger]
            texts(final(list)@).contains(t) <==> texts(old(list)@).contains(t) || t == s@,
{
    let ghost before = texts(list@);
    let mut i: usize = 0;
    while i < list.len() && text_before(list[i].as_str(), s)
        invariant
            before == texts(list@),
            i <= list.len(),
            forall|j: int| 0 <= j < i ==> is_before(#[trigger] before[j], s@),
        decreases list.len() - i,
    {
        i = i + 1;
    }
    if i < list.len() && same_text(list[i].as_str(), s) {
        assert(before[i as int] == s@);
        return;
    }
    proof {
        if i < list.len() {
            lemma_order_total(before[i as int], s@);
            assert(is_before(s@, before[i as int]));
            assert forall|j: int| i <= j < before.len() implies is_before(
                s@,
                #[trigger] before[j],
            ) by {
                if i < j {
                    lemma_order_transitive(s@, before[i as int], before[j]);
                }
            }
        }
    }
    list.insert(i, s.to_string());
    proof {
        let after = texts(list@);
        assert(after =~= before.insert(i as int, s@));
        assert forall|a: int, b: int| 0 <= a < b < after.len() implies is_before(
            #[trigger] after[a],
            #[trigger] after[b],
        ) by {
            let x = if a < i {
                a
            } else {
                a - 1
            };
            let y = if b < i {
                b
            } else {
                b - 1
            };
            if a != i {
                assert(after[a] == before[x]);
            }
            if b != i {
                assert(after[b] == before[y]);
            }
        }
        assert forall|t: Seq<char>| #[trigger] after.contains(t) <==> before.contains(t) || t
            == s@ by {
            if before.contains(t) {
                let k = choose|k: int| 0 <= k < before.len() && before[k] == t;
                if k < i {
                    assert(after[k] == t);
                } else {
                    assert(after[k + 1] == t);
                }
            }
            assert(after[i as int] == s@);
            if after.contains(t) {
                let k = choose|k: int| 0 <= k < after.len() && after[k] == t;
                if k < i {
                    assert(before[k] == t);
                } else if k > i {
                    assert(before[k - 1] == t);
                }
            }
        }
    }
}

/// Whether a text stands within another one, at an index.
pub open spec fn has_part_at(s: Seq<char>, part: Seq<char>, i: int) -> bool {
    0 <= i && i + part.len() <= s.len() && s.subrange(i, i + part.len()) == part
}

/// Whether a text stands within another one.
pub open spec fn has_part(s: Seq<char>, part: Seq<char>) -> bool {
    exists|i: int| has_part_at(s, part, i)
}

/// Whether a text stands within another one.
pub fn contains_part(s: &str, part: &str) -> (r: bool)
    ensures
        r == has_part(s@, part@),
{
    let n: usize = s.unicode_len();
    let m: usize = part.unicode_len();
    let mut i: usize = 0;
    while i <= n && m <= n - i
        invariant
            n == s@.len(),
            m == part@.len(),
            i <= n + 1,
            forall|j: int| 0 <= j < i ==> !has_part_at(s@, part@, j),
        decreases n + 1 - i,
    {
        if same_text(s.substring_char(i, i + m), part) {
            assert(has_part_at(s@, part@, i as int));
            return true;
        }
        assert(!has_part_at(s@, part@, i as int));
        if i == n {
            return false;
        }
        i = i + 1;
    }
    false
}

/// A text without the trailing characters that are `c`.
pub open spec fn without_trailing(s: Seq<char>, c: char) -> Seq<char>
    decreases s.len(),
{
    if s.len() > 0 && s.last() == c {
        without_trailing(s.drop_last(), c)
    } else {
        s
    }
}

/// A text without the trailing characters that are `c`.
pub fn trim_end_char<'a>(s: &'a str, c: char) -> (r: &'a str)
    ensures
        r@ == without_trailing(s@, c),
{
    let mut end: usize = s.unicode_len();
    assert(s@.take(end as int) =~= s@);
    while end > 0 && s.get_char(end - 1) == c
        invariant
            end <= s@.len(),
            without_trailing(s@, c) == without_trailing(s@.take(end as int), c),
        decreases end,
    {
        assert(s@.take(end as int).drop_last() =~= s@.take(end - 1));
        end = end - 1;
    }
    assert(s@.subrange(0, end as int) =~= s@.take(end as int));
    s.substring_char(0, end)
}

/// Sorted lists with the same texts are the same.
pub proof fn lemma_sorted_unique(a: Seq<Seq<char>>, b: Seq<Seq<char>>)
    requires
        is_sorted(a),
        is_sorted(b),
        forall|s: Seq<char>| a.contains(s) <==> b.contains(s),
    ensures
        a == b,
    decreases a.len(),
{
    if a.len() == 0 {
        if b.len() > 0 {
            assert(b.contains(b[0]));
            assert(a.contains(b[0]));
        }
        assert(a =~= b);
    } else {
        assert(a.contains(a[0]));
        assert(b.contains(a[0]));
        let j = choose|j: int| 0 <= j < b.len() && b[j] == a[0];
        assert(b.contains(b[0]));
        assert(a.contains(b[0]));
        let i = choose|i: int| 0 <= i < a.len() && a[i] == b[0];
        if i > 0 {
            assert(is_before(a[0], a[i]));
            assert(j > 0 ==> is_before(b[0], b[j]));
            lemma_order_total(a[0], b[0]);
        }
        assert(a[0] == b[0]);
        let x = a.skip(1);
        let y = b.skip(1);
        assert forall|s: Seq<char>| x.contains(s) <==> y.contains(s) by {
            lemma_order_total(a[0], s);
            if x.contains(s) {
                let k = choose|k: int| 0 <= k < x.len() && x[k] == s;
                assert(a[k + 1] == s);
                assert(is_before(a[0], a[k + 1]));
                assert(b.contains(s));
                let m = choose|m: int| 0 <= m < b.len() && b[m] == s;
                assert(m != 0);
                assert(y[m - 1] == s);
            }
            if y.contains(s) {
                let k = choose|k: int| 0 <= k < y.len() && y[k] == s;
                assert(b[k + 1] == s);
                assert(is_before(b[0], b[k + 1]));
                assert(a.contains(s));
                let m = choose|m: int| 0 <= m < a.len() && a[m] == s;
                assert(m != 0);
                assert(x[m - 1] == s);
            }
        }
        assert forall|p: int, q: int| 0 <= p < q < x.len() implies is_before(
            #[trigger] x[p],
            #[trigger] x[q],
        ) by {
            assert(is_before(a[p + 1], a[q + 1]));
        }
        assert forall|p: int, q: int| 0 <= p < q < y.len() implies is_before(
            #[trigger] y[p],
            #[trigger] y[q],
        ) by {
            assert(is_before(b[p + 1], b[q + 1]));
        }
        lemma_sorted_unique(x, y);
        assert(a =~= seq![a[0]] + x);
        assert(b =~= seq![b[0]] + y);
    }
}

/// What is left of a text without its trailing characters `c`: a beginning of it,
/// followed in it by nothing but `c`, that does not end in `c`.
pub proof fn lemma_without_trailing(s: Seq<char>, c: char)
    ensures
        ({
            let r = without_trailing(s, c);
            &&& has_prefix(s, r)
            &&& forall|i: int| r.len() <= i < s.len() ==> s[i] == c
            &&& r.len() > 0 ==> r.last() != c
        }),
    decreases s.len(),
{
    if s.len() > 0 && s.last() == c {
        let before = s.drop_last();
        lemma_without_trailing(before, c);
        let r = without_trailing(before, c);
        assert(before.take(r.len() as int) =~= s.take(r.len() as int));
        assert forall|i: int| r.len() <= i < s.len() implies s[i] == c by {
            if i < before.len() {
                assert(before[i] == s[i]);
            }
        }
    } else {
        assert(s.take(s.len() as int) =~= s);
    }
}

/// What is left of a text without the white space around it: a part of it, with
/// nothing but white space before and after, that neither begins nor ends with
/// white space.
pub proof fn lemma_trimmed(s: Seq<char>)
    ensures
        exists|start: int, end: int|
            0 <= start <= end <= s.len() && trimmed(s) == #[trigger] s.subrange(start, end)
                && (forall|i: int| 0 <= i < start ==> is_white_space(#[trigger] s[i])) && (forall|
                i: int,
            |
                end <= i < s.len() ==> is_white_space(#[trigger] s[i])) && (start < end
                ==> !is_white_space(s[start]) && !is_white_space(s[end - 1])),
{
    lemma_without_leading(s);
    let start = s.len() - without_leading_space(s).len();
    let rest = s.skip(start);
    lemma_without_trailing_space(rest);
    let r = trimmed(s);
    let end = start + r.len();
    assert(r =~= s.subrange(start, end));
    assert forall|i: int| end <= i < s.len() implies is_white_space(#[trigger] s[i]) by {
        assert(s[i] == rest[i - start]);
    }
    if start < end {
        assert(s[start] == rest[0]);
        assert(s[end - 1] == r.last());
    }
}

proof fn lemma_without_leading(s: Seq<char>)
    ensures
        ({
            let r = without_leading_space(s);
            &&& r.len() <= s.len()
            &&& r == s.skip(s.len() - r.len())
            &&& forall|i: int| 0 <= i < s.len() - r.len() ==> is_white_space(#[trigger] s[i])
            &&& r.len() > 0 ==> !is_white_space(r[0])
        }),
    decreases s.len(),
{
    if s.len() > 0 && is_white_space(s[0]) {
        let rest = s.skip(1);
        assert(s.drop_first() =~= rest);
        lemma_without_leading(rest);
        let r = without_leading_space(rest);
        assert(rest.skip(rest.len() - r.len()) =~= s.skip(s.len() - r.len()));
        assert forall|i: int| 0 <= i < s.len() - r.len() implies is_white_space(
            #[trigger] s[i],
        ) by {
            if i > 0 {
                assert(rest[i - 1] == s[i]);
            }
        }
    } else {
        assert(s.skip(0) =~= s);
    }
}

proof fn lemma_without_trailing_space(s: Seq<char>)
    ensures
        ({
            let r = without_trailing_space(s);
            &&& r.len() <= s.len()
            &&& r == s.take(r.len() as int)
            &&& forall|i: int| r.len() <= i < s.len() ==> is_white_space(#[trigger] s[i])
            &&& r.len() > 0 ==> !is_white_space(r.last())
        }),
    decreases s.len(),
{
    if s.len() > 0 && is_white_space(s.last()) {
        let before = s.drop_last();
        lemma_without_trailing_space(before);
        let r = without_trailing_space(before);
        assert(before.take(r.len() as int) =~= s.take(r.len() as int));
        assert forall|i: int| r.len() <= i < s.len() implies is_white_space(#[trigger] s[i]) by {
            if i < before.len() {
                assert(before[i] == s[i]);
            }
        }
    } else {
        assert(s.take(s.len() as int) =~= s);
    }
}

/// Texts joined with a separator: nothing without texts, one text alone, and each
/// further text after a separator.
pub proof fn lemma_joined(parts: Seq<Seq<char>>, last: Seq<char>, separator: Seq<char>)
    ensures
        joined(Seq::empty(), separator).len() == 0,
        joined(parts.push(last), separator) == if parts.len() == 0 {
            last
        } else {
            joined(parts, separator) + separator + last
        },
{
    assert(parts.push(last).drop_last() =~= parts);
}

/// A text begins with another one exactly where it is that one and something more.
pub proof fn lemma_prefix(s: Seq<char>, prefix: Seq<char>, rest: Seq<char>)
    ensures
        has_prefix(prefix + rest, prefix),
        has_prefix(s, prefix) ==> s == prefix + s.skip(prefix.len() as int),
{
    assert((prefix + rest).take(prefix.len() as int) =~= prefix);
    if has_prefix(s, prefix) {
        assert(s =~= s.take(prefix.len() as int) + s.skip(prefix.len() as int));
    }
}

/// A text ends with another one exactly where it is something and that one.
pub proof fn lemma_suffix(s: Seq<char>, suffix: Seq<char>, before: Seq<char>)
    ensures
        has_suffix(before + suffix, suffix),
        has_suffix(s, suffix) ==> s == s.take(s.len() - suffix.len()) + suffix,
{
    let whole = before + suffix;
    assert(whole.skip(whole.len() - suffix.len()) =~= suffix);
    if has_suffix(s, suffix) {
        assert(s =~= s.take(s.len() - suffix.len()) + s.skip(s.len() - suffix.len()));
    }
}

/// A text holds another one exactly where that one stands between something and
/// something.
pub proof fn lemma_part(s: Seq<char>, part: Seq<char>, before: Seq<char>, after: Seq<char>)
    ensures
        has_part(before + part + after, part),
        has_part(s, part) ==> exists|i: int|
            0 <= i <= s.len() - part.len() && s == #[trigger] s.take(i) + part + s.skip(
                i + part.len(),
            ),
{
    let whole = before + part + after;
    assert(whole.subrange(before.len() as int, (before.len() + part.len()) as int) =~= part);
    assert(has_part_at(whole, part, before.len() as int));
    if has_part(s, part) {
        let i = choose|i: int| has_part_at(s, part, i);
        assert(s =~= s.take(i) + s.subrange(i, i + part.len()) + s.skip(i + part.len()));
        assert(s == s.take(i) + part + s.skip(i + part.len()));
    }
}

/// Texts are ordered by the first character in which they differ, and a text stands
/// before every longer one that begins with it.
pub proof fn lemma_order(
    common: Seq<char>,
    a: char,
    rest_a: Seq<char>,
    b: char,
    rest_b: Seq<char>,
)
    ensures
        a < b ==> is_before(common.push(a) + rest_a, common.push(b) + rest_b),
        is_before(common, common.push(b) + rest_b),
        !is_before(common.push(b) + rest_b, common),
        !is_before(common, common),
    decreases common.len(),
{
    let x = common.push(a) + rest_a;
    let y = common.push(b) + rest_b;
    if common.len() > 0 {
        let shorter = common.skip(1);
        lemma_order(shorter, a, rest_a, b, rest_b);
        assert(x.skip(1) =~= shorter.push(a) + rest_a);
        assert(y.skip(1) =~= shorter.push(b) + rest_b);
    }
}

/// The characters that stand in lines and between words are white space, and the
/// visible ones of ASCII are not.
pub proof fn lemma_white_space(c: char)
    ensures
        c == ' ' || c == '\t' || c == '\n' || c == '\r' ==> is_white_space(c),
        '!' <= c <= '~' ==> !is_white_space(c),
{
}

/// What strings are: each stands for its characters, one by one.
pub proof fn lemma_texts(strings: Seq<String>)
    ensures
        texts(strings).len() == strings.len(),
        forall|i: int| 0 <= i < strings.len() ==> #[trigger] texts(strings)[i] == strings[i]@,
{
}

} // verus!
