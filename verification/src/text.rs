//! Text as sequences of characters: comparison, ordering, joining, decimal
//! numbers, trimming, and the line a peer reports its result on.

use vstd::prelude::*;
use vstd::utf8::*;

verus! {

// ----- equality and order --------------------------------------------------------------

/// Whether two strings hold the same characters.
pub fn same(a: &str, b: &str) -> (r: bool)
    ensures
        r == (a@ == b@),
{
    let x = a.as_bytes();
    let y = b.as_bytes();
    proof {
        encode_utf8_decode_utf8(a@);
        encode_utf8_decode_utf8(b@);
    }
    if x.len() != y.len() {
        return false;
    }
    let mut i: usize = 0;
    while i < x.len()
        invariant
            i <= x@.len(),
            x@.len() == y@.len(),
            x@ == encode_utf8(a@),
            y@ == encode_utf8(b@),
            forall|k: int| 0 <= k < i ==> x@[k] == y@[k],
        decreases x@.len() - i,
    {
        if x[i] != y[i] {
            return false;
        }
        i += 1;
    }
    assert(x@ =~= y@);
    true
}

/// The character sequences of a list of strings.
pub open spec fn views(list: Seq<String>) -> Seq<Seq<char>> {
    list.map_values(|s: String| s@)
}

/// The character sequences of a list of string slices.
pub open spec fn str_views(list: Seq<&'static str>) -> Seq<Seq<char>> {
    list.map_values(|s: &'static str| s@)
}

/// Whether `list` holds a string with `wanted`'s characters.
pub fn holds(list: &[String], wanted: &str) -> (r: bool)
    ensures
        r == views(list@).contains(wanted@),
{
    let mut i: usize = 0;
    while i < list.len()
        invariant
            i <= list@.len(),
            forall|k: int| 0 <= k < i ==> views(list@)[k] != wanted@,
        decreases list@.len() - i,
    {
        if same(list[i].as_str(), wanted) {
            assert(views(list@)[i as int] == wanted@);
            return true;
        }
        i += 1;
    }
    false
}

/// Whether `list` holds a slice with `wanted`'s characters.
pub fn holds_str(list: &[&'static str], wanted: &str) -> (r: bool)
    ensures
        r == str_views(list@).contains(wanted@),
{
    let mut i: usize = 0;
    while i < list.len()
        invariant
            i <= list@.len(),
            forall|k: int| 0 <= k < i ==> str_views(list@)[k] != wanted@,
        decreases list@.len() - i,
    {
        if same(list[i], wanted) {
            assert(str_views(list@)[i as int] == wanted@);
            return true;
        }
        i += 1;
    }
    false
}

/// Lexicographic order by code point, which is the order `str` has.
pub open spec fn before(a: Seq<char>, b: Seq<char>) -> bool
    decreases a.len(),
{
    if b.len() == 0 {
        false
    } else if a.len() == 0 {
        true
    } else {
        a[0] < b[0] || (a[0] == b[0] && before(a.drop_first(), b.drop_first()))
    }
}

/// No text stands before itself.
pub proof fn lemma_before_irreflexive(a: Seq<char>)
    ensures
        !before(a, a),
    decreases a.len(),
{
    if a.len() > 0 {
        lemma_before_irreflexive(a.drop_first());
    }
}

/// The order of texts is transitive.
pub proof fn lemma_before_transitive(a: Seq<char>, b: Seq<char>, c: Seq<char>)
    requires
        before(a, b),
        before(b, c),
    ensures
        before(a, c),
    decreases a.len(),
{
    if a.len() > 0 && a[0] == b[0] && b[0] == c[0] {
        lemma_before_transitive(a.drop_first(), b.drop_first(), c.drop_first());
    }
}

/// Of two texts that differ, one stands before the other.
pub proof fn lemma_before_total(a: Seq<char>, b: Seq<char>)
    ensures
        a == b || before(a, b) || before(b, a),
    decreases a.len(),
{
    if a.len() > 0 && b.len() > 0 {
        if a[0] == b[0] {
            lemma_before_total(a.drop_first(), b.drop_first());
            if a.drop_first() == b.drop_first() {
                assert(a =~= seq![a[0]] + a.drop_first());
                assert(b =~= seq![b[0]] + b.drop_first());
            }
        }
    } else if a.len() == 0 && b.len() == 0 {
        assert(a =~= b);
    }
}

/// The characters of a string, as a vector.
pub fn chars_of(s: &str) -> (r: Vec<char>)
    ensures
        r@ == s@,
{
    let mut out: Vec<char> = Vec::new();
    for c in it: s.chars()
        invariant
            out@ == it.seq().take(it.index() as int),
            it.seq() == s@,
    {
        proof {
            assert(it.seq().take(it.index() as int + 1) =~= it.seq().take(it.index() as int).push(c));
        }
        out.push(c);
    }
    assert(out@ =~= s@);
    out
}

/// Whether `a` comes strictly before `b`.
pub fn precedes(a: &str, b: &str) -> (r: bool)
    ensures
        r == before(a@, b@),
{
    let x = chars_of(a);
    let y = chars_of(b);
    let mut i: usize = 0;
    assert(x@.skip(0) =~= a@);
    assert(y@.skip(0) =~= b@);
    loop
        invariant
            x@ == a@,
            y@ == b@,
            i <= x@.len(),
            i <= y@.len(),
            before(a@, b@) == before(x@.skip(i as int), y@.skip(i as int)),
        decreases x@.len() - i,
    {
        if i == y.len() {
            return false;
        }
        if i == x.len() {
            return true;
        }
        assert(x@.skip(i as int).drop_first() =~= x@.skip(i + 1));
        assert(y@.skip(i as int).drop_first() =~= y@.skip(i + 1));
        if x[i] < y[i] {
            return true;
        }
        if y[i] < x[i] {
            return false;
        }
        i += 1;
    }
}

// ----- joining -------------------------------------------------------------------------

/// The parts in order with `sep` between neighbours.
pub open spec fn joined(parts: Seq<Seq<char>>, sep: Seq<char>) -> Seq<char>
    decreases parts.len(),
{
    if parts.len() == 0 {
        Seq::empty()
    } else if parts.len() == 1 {
        parts[0]
    } else {
        joined(parts.drop_last(), sep) + sep + parts.last()
    }
}

/// Join `parts[from..]` with `sep`.
pub fn join_from(parts: &Vec<String>, from: usize, sep: &str) -> (r: String)
    requires
        from <= parts@.len(),
    ensures
        r@ == joined(views(parts@).skip(from as int), sep@),
{
    let ghost all = views(parts@).skip(from as int);
    let mut out = String::new();
    let mut i: usize = from;
    assert(all.take(0) =~= Seq::<Seq<char>>::empty());
    while i < parts.len()
        invariant
            from <= i <= parts@.len(),
            all == views(parts@).skip(from as int),
            out@ == joined(all.take(i - from), sep@),
        decreases parts@.len() - i,
    {
        proof {
            assert(all.take(i - from + 1).drop_last() =~= all.take(i - from));
            assert(all.take(i - from + 1).last() == parts@[i as int]@);
        }
        if i == from {
            out = parts[i].clone();
        } else {
            out.append(sep);
            out.append(parts[i].as_str());
        }
        i += 1;
    }
    assert(all.take(all.len() as int) =~= all);
    out
}

/// Join `parts` with `sep`.
pub fn join(parts: &Vec<String>, sep: &str) -> (r: String)
    ensures
        r@ == joined(views(parts@), sep@),
{
    assert(views(parts@).skip(0) =~= views(parts@));
    join_from(parts, 0, sep)
}

/// Join string slices with `sep`.
pub fn join_strs(parts: &[&'static str], sep: &str) -> (r: String)
    ensures
        r@ == joined(str_views(parts@), sep@),
{
    let mut owned: Vec<String> = Vec::new();
    let mut i: usize = 0;
    while i < parts.len()
        invariant
            i <= parts@.len(),
            owned@.len() == i,
            forall|k: int| 0 <= k < i ==> (#[trigger] owned@[k])@ == parts@[k]@,
        decreases parts@.len() - i,
    {
        owned.push(parts[i].to_owned());
        i += 1;
    }
    assert(views(owned@) =~= str_views(parts@));
    join(&owned, sep)
}

// ----- decimal numbers -----------------------------------------------------------------

/// The decimal digit `d`.
pub open spec fn digit(d: nat) -> char {
    if d == 0 { '0' } else if d == 1 { '1' } else if d == 2 { '2' } else if d == 3 { '3' }
    else if d == 4 { '4' } else if d == 5 { '5' } else if d == 6 { '6' } else if d == 7 { '7' }
    else if d == 8 { '8' } else { '9' }
}

/// The decimal numeral of `n`, without leading zeros.
pub open spec fn decimal(n: nat) -> Seq<char>
    decreases n,
{
    if n < 10 {
        seq![digit(n)]
    } else {
        decimal(n / 10).push(digit(n % 10))
    }
}

fn digit_str(d: u64) -> (r: &'static str)
    requires
        d < 10,
    ensures
        r@ == seq![digit(d as nat)],
{
    proof {
        reveal_strlit("0");
        reveal_strlit("1");
        reveal_strlit("2");
        reveal_strlit("3");
        reveal_strlit("4");
        reveal_strlit("5");
        reveal_strlit("6");
        reveal_strlit("7");
        reveal_strlit("8");
        reveal_strlit("9");
    }
    let r = match d {
        0 => "0",
        1 => "1",
        2 => "2",
        3 => "3",
        4 => "4",
        5 => "5",
        6 => "6",
        7 => "7",
        8 => "8",
        _ => "9",
    };
    assert(r@ =~= seq![digit(d as nat)]);
    r
}

/// The decimal numeral of `n`.
pub fn decimal_text(n: u64) -> (r: String)
    ensures
        r@ == decimal(n as nat),
    decreases n,
{
    if n < 10 {
        digit_str(n).to_owned()
    } else {
        let head = decimal_text(n / 10);
        let r = head.concat(digit_str(n % 10));
        assert(r@ =~= decimal((n / 10) as nat).push(digit((n % 10) as nat)));
        r
    }
}

/// Whether every character of `s` is a decimal digit.
pub open spec fn all_digits(s: Seq<char>) -> bool {
    forall|i: int| 0 <= i < s.len() ==> '0' <= #[trigger] s[i] <= '9'
}

/// The number a sequence of decimal digits writes.
pub open spec fn digits_value(s: Seq<char>) -> nat
    decreases s.len(),
{
    if s.len() == 0 {
        0
    } else {
        digits_value(s.drop_last()) * 10 + (s.last() as nat - '0' as nat) as nat
    }
}

/// A decimal numeral reads back as the number it was written for.
pub proof fn numeral_reads_back(n: nat)
    ensures
        decimal(n).len() > 0,
        all_digits(decimal(n)),
        digits_value(decimal(n)) == n,
    decreases n,
{
    if n < 10 {
        assert(decimal(n).drop_last() =~= Seq::<char>::empty());
        assert(digits_value(decimal(n).drop_last()) == 0);
    } else {
        numeral_reads_back(n / 10);
        let all = decimal(n);
        assert(all.drop_last() =~= decimal(n / 10));
        assert forall|i: int| 0 <= i < all.len() implies '0' <= #[trigger] all[i] <= '9' by {
            if i < all.len() - 1 {
                assert(all[i] == decimal(n / 10)[i]);
            }
        }
    }
}

/// The digits of an unsigned numeral: what follows an optional leading `+`.
pub open spec fn numeral_digits(s: Seq<char>) -> Seq<char> {
    if s.len() > 0 && s[0] == '+' {
        s.skip(1)
    } else {
        s
    }
}

/// The machine-sized unsigned number `s` writes, if it writes one that fits.
pub open spec fn unsigned_value(s: Seq<char>) -> Option<usize> {
    let d = numeral_digits(s);
    if d.len() > 0 && all_digits(d) && digits_value(d) <= usize::MAX {
        Some(digits_value(d) as usize)
    } else {
        None
    }
}

proof fn lemma_digits_value_grows(s: Seq<char>, n: int)
    requires
        all_digits(s),
        0 <= n <= s.len(),
    ensures
        digits_value(s.take(n)) <= digits_value(s),
    decreases s.len(),
{
    if n == s.len() {
        assert(s.take(n) =~= s);
    } else {
        lemma_digits_value_grows(s.drop_last(), n);
        assert(s.drop_last().take(n) =~= s.take(n));
        assert(digits_value(s.drop_last()) <= digits_value(s)) by (nonlinear_arith)
            requires
                digits_value(s) == digits_value(s.drop_last()) * 10 + (s.last() as nat
                    - '0' as nat) as nat,
        ;
    }
}

/// Read an unsigned number: decimal digits, optionally after a `+`.
pub fn parse_unsigned(s: &str) -> (r: Option<usize>)
    ensures
        r == unsigned_value(s@),
{
    let all = chars_of(s);
    let ghost d = numeral_digits(s@);
    let start: usize = if all.len() > 0 && all[0] == '+' { 1 } else { 0 };
    assert(d =~= all@.skip(start as int));
    if start == all.len() {
        return None;
    }
    let mut value: usize = 0;
    let mut i: usize = start;
    assert(d.take(0) =~= Seq::<char>::empty());
    while i < all.len()
        invariant
            start <= i <= all@.len(),
            start <= 1,
            d == all@.skip(start as int),
            d == numeral_digits(s@),
            all_digits(d.take(i - start)),
            value == digits_value(d.take(i - start)),
        decreases all@.len() - i,
    {
        let c = all[i];
        assert(d[i - start] == c);
        let ghost next = d.take(i - start + 1);
        assert(next.drop_last() =~= d.take(i - start));
        assert(next.last() == c);
        if c < '0' || c > '9' {
            return None;
        }
        let step: usize = (c as u32 - '0' as u32) as usize;
        assert(digits_value(next) == value * 10 + step);
        assert forall|k: int| 0 <= k < next.len() implies '0' <= #[trigger] next[k] <= '9' by {
            if k < i - start {
                assert(next[k] == d.take(i - start)[k]);
            }
        }
        let tenfold = match value.checked_mul(10) {
            Some(v) => v,
            None => {
                proof {
                    if all_digits(d) {
                        lemma_digits_value_grows(d, i - start + 1);
                    }
                }
                return None;
            },
        };
        value = match tenfold.checked_add(step) {
            Some(v) => v,
            None => {
                proof {
                    if all_digits(d) {
                        lemma_digits_value_grows(d, i - start + 1);
                    }
                }
                return None;
            },
        };
        i += 1;
    }
    assert(d.take(d.len() as int) =~= d);
    Some(value)
}

// ----- white space and lines -----------------------------------------------------------

/// Unicode's `White_Space` property, which `str::trim` goes by.
pub open spec fn is_white(c: char) -> bool {
    ||| '\t' <= c <= '\r'
    ||| c == ' '
    ||| c == '\u{85}'
    ||| c == '\u{a0}'
    ||| c == '\u{1680}'
    ||| '\u{2000}' <= c <= '\u{200a}'
    ||| c == '\u{2028}'
    ||| c == '\u{2029}'
    ||| c == '\u{202f}'
    ||| c == '\u{205f}'
    ||| c == '\u{3000}'
}

/// Whether `c` has the `White_Space` property.
pub fn white(c: char) -> (r: bool)
    ensures
        r == is_white(c),
{
    ('\t' <= c && c <= '\r') || c == ' ' || c == '\u{85}' || c == '\u{a0}' || c == '\u{1680}' || (
    '\u{2000}' <= c && c <= '\u{200a}') || c == '\u{2028}' || c == '\u{2029}' || c == '\u{202f}' || c
        == '\u{205f}' || c == '\u{3000}'
}

/// Whether `s` holds white space only.
pub open spec fn blank(s: Seq<char>) -> bool {
    forall|i: int| 0 <= i < s.len() ==> is_white(#[trigger] s[i])
}

/// The index of the first character of `s` that is not white space, or its length.
pub open spec fn first_visible(s: Seq<char>) -> int
    decreases s.len(),
{
    if s.len() == 0 || !is_white(s[0]) {
        0
    } else {
        1 + first_visible(s.drop_first())
    }
}

/// The index of the last character of `s` that is not white space, or -1.
pub open spec fn last_visible(s: Seq<char>) -> int
    decreases s.len(),
{
    if s.len() == 0 {
        -1
    } else if !is_white(s.last()) {
        s.len() - 1
    } else {
        last_visible(s.drop_last())
    }
}

/// `s` without leading and trailing white space.
pub open spec fn trimmed(s: Seq<char>) -> Seq<char> {
    if last_visible(s) < 0 {
        Seq::empty()
    } else {
        s.subrange(first_visible(s), last_visible(s) + 1)
    }
}

pub(crate) proof fn lemma_first_visible_at(s: Seq<char>, p: int)
    requires
        0 <= p < s.len(),
        !is_white(s[p]),
        forall|j: int| 0 <= j < p ==> is_white(#[trigger] s[j]),
    ensures
        first_visible(s) == p,
    decreases s.len(),
{
    if p > 0 {
        assert(is_white(s[0]));
        assert forall|j: int| 0 <= j < p - 1 implies is_white(#[trigger] s.drop_first()[j]) by {
            assert(is_white(s[j + 1]));
        }
        lemma_first_visible_at(s.drop_first(), p - 1);
    }
}

pub(crate) proof fn lemma_last_visible_at(s: Seq<char>, p: int)
    requires
        -1 <= p < s.len(),
        p >= 0 ==> !is_white(s[p]),
        forall|j: int| p < j < s.len() ==> is_white(#[trigger] s[j]),
    ensures
        last_visible(s) == p,
    decreases s.len(),
{
    if p < s.len() - 1 {
        assert(is_white(s[s.len() - 1]));
        assert forall|j: int| p < j < s.drop_last().len() implies is_white(
            #[trigger] s.drop_last()[j],
        ) by {
            assert(is_white(s[j]));
        }
        lemma_last_visible_at(s.drop_last(), p);
    }
}

/// Trim `s`.
pub fn trim(s: &str) -> (r: &str)
    ensures
        r@ == trimmed(s@),
{
    let all = chars_of(s);
    let mut end: usize = all.len();
    while end > 0 && white(all[end - 1])
        invariant
            all@ == s@,
            end <= all@.len(),
            forall|j: int| end <= j < all@.len() ==> is_white(#[trigger] all@[j]),
        decreases end,
    {
        end -= 1;
    }
    proof {
        lemma_last_visible_at(s@, end - 1);
    }
    if end == 0 {
        let r = s.substring_char(0, 0);
        assert(r@ =~= trimmed(s@));
        return r;
    }
    let mut start: usize = 0;
    while white(all[start])
        invariant
            all@ == s@,
            start < end <= all@.len(),
            !is_white(all@[end - 1]),
            forall|j: int| 0 <= j < start ==> is_white(#[trigger] all@[j]),
        decreases end - start,
    {
        start += 1;
    }
    proof {
        lemma_first_visible_at(s@, start as int);
    }
    s.substring_char(start, end)
}

/// Where the line that holds index `p` begins.
pub open spec fn line_start(s: Seq<char>, p: int) -> int
    decreases p,
{
    if p <= 0 {
        0
    } else if s[p - 1] == '\n' {
        p
    } else {
        line_start(s, p - 1)
    }
}

/// Where the line that holds index `p` ends: its line feed, or the end of `s`.
pub open spec fn line_end(s: Seq<char>, p: int) -> int
    decreases s.len() - p,
{
    if p >= s.len() || s[p] == '\n' {
        p
    } else {
        line_end(s, p + 1)
    }
}

/// The last line of `s` that is not blank, without its line ending (a line
/// feed, or a carriage return and a line feed).
pub open spec fn last_line(s: Seq<char>) -> Option<Seq<char>> {
    let p = last_visible(s);
    if p < 0 {
        None
    } else {
        let a = line_start(s, p);
        let b = line_end(s, p);
        Some(s.subrange(a, if b < s.len() && s[b - 1] == '\r' { b - 1 } else { b }))
    }
}

pub(crate) proof fn lemma_line_start_at(s: Seq<char>, a: int, p: int)
    requires
        0 <= a <= p < s.len(),
        a == 0 || s[a - 1] == '\n',
        forall|j: int| a <= j < p ==> #[trigger] s[j] != '\n',
    ensures
        line_start(s, p) == a,
    decreases p,
{
    if a < p {
        assert(s[p - 1] != '\n');
        lemma_line_start_at(s, a, p - 1);
    }
}

pub(crate) proof fn lemma_line_end_at(s: Seq<char>, p: int, b: int)
    requires
        0 <= p <= b <= s.len(),
        b == s.len() || s[b] == '\n',
        forall|j: int| p <= j < b ==> #[trigger] s[j] != '\n',
    ensures
        line_end(s, p) == b,
    decreases b - p,
{
    if p < b {
        assert(s[p] != '\n');
        lemma_line_end_at(s, p + 1, b);
    }
}

/// The last line of `s` that is not blank.
pub fn find_last_line(s: &str) -> (r: Option<&str>)
    ensures
        r is Some <==> last_line(s@) is Some,
        r matches Some(line) ==> line@ == last_line(s@)->Some_0,
{
    let all = chars_of(s);
    let mut seen: usize = all.len();
    while seen > 0 && white(all[seen - 1])
        invariant
            all@ == s@,
            seen <= all@.len(),
            forall|j: int| seen <= j < all@.len() ==> is_white(#[trigger] all@[j]),
        decreases seen,
    {
        seen -= 1;
    }
    proof {
        lemma_last_visible_at(s@, seen - 1);
    }
    if seen == 0 {
        return None;
    }
    let mut a: usize = seen - 1;
    while a > 0 && all[a - 1] != '\n'
        invariant
            all@ == s@,
            a <= seen - 1 < all@.len(),
            forall|j: int| a <= j < seen - 1 ==> #[trigger] all@[j] != '\n',
        decreases a,
    {
        a -= 1;
    }
    let mut b: usize = seen;
    while b < all.len() && all[b] != '\n'
        invariant
            all@ == s@,
            seen <= b <= all@.len(),
            all@[seen - 1] != '\n',
            forall|j: int| seen - 1 <= j < b ==> #[trigger] all@[j] != '\n',
        decreases all@.len() - b,
    {
        b += 1;
    }
    proof {
        lemma_line_start_at(s@, a as int, seen - 1);
        lemma_line_end_at(s@, seen - 1, b as int);
    }
    if b < all.len() && all[b - 1] == '\r' {
        Some(s.substring_char(a, b - 1))
    } else {
        Some(s.substring_char(a, b))
    }
}

/// A line of visible text between a line break and blank text is the last line
/// that is not blank, and trimming gives it back.
pub proof fn lemma_last_line_of(noise: Seq<char>, line: Seq<char>, tail: Seq<char>)
    requires
        noise.len() == 0 || noise.last() == '\n',
        line.len() > 0,
        !is_white(line[0]),
        !is_white(line.last()),
        forall|i: int| 0 <= i < line.len() ==> #[trigger] line[i] != '\n',
        blank(tail),
    ensures
        last_line(noise + line + tail) is Some,
        trimmed(last_line(noise + line + tail)->Some_0) == line,
{
    let s = noise + line + tail;
    let a = noise.len() as int;
    let p = a + line.len() - 1;
    assert(s[p] == line.last());
    assert forall|j: int| p < j < s.len() implies is_white(#[trigger] s[j]) by {
        assert(s[j] == tail[j - p - 1]);
    }
    lemma_last_visible_at(s, p);
    assert forall|j: int| a <= j < p implies #[trigger] s[j] != '\n' by {
        assert(s[j] == line[j - a]);
    }
    assert(a > 0 ==> s[a - 1] == noise.last());
    lemma_line_start_at(s, a, p);
    let b = line_end(s, p);
    lemma_line_end_bounds(s, p);
    let e = if b < s.len() && s[b - 1] == '\r' { b - 1 } else { b };
    assert(e > p) by {
        assert(is_white('\r'));
        assert(s[p] != '\n') by {
            assert(is_white('\n'));
        }
    }
    let found = s.subrange(a, e);
    assert(found[0] == line[0]);
    lemma_first_visible_at(found, 0);
    assert(found[p - a] == line.last());
    assert forall|j: int| p - a < j < found.len() implies is_white(#[trigger] found[j]) by {
        assert(found[j] == s[a + j]);
    }
    lemma_last_visible_at(found, p - a);
    assert(trimmed(found) =~= line);
}

proof fn lemma_line_end_bounds(s: Seq<char>, p: int)
    requires
        0 <= p <= s.len(),
    ensures
        p <= line_end(s, p) <= s.len(),
        p < s.len() && s[p] != '\n' ==> line_end(s, p) > p,
    decreases s.len() - p,
{
    if p < s.len() && s[p] != '\n' {
        lemma_line_end_bounds(s, p + 1);
    }
}

/// `s` without the slashes it ends in.
pub open spec fn without_trailing_slashes(s: Seq<char>) -> Seq<char>
    decreases s.len(),
{
    if s.len() > 0 && s.last() == '/' {
        without_trailing_slashes(s.drop_last())
    } else {
        s
    }
}

/// Drop the slashes `s` ends in.
pub fn drop_trailing_slashes(s: &str) -> (r: String)
    ensures
        r@ == without_trailing_slashes(s@),
{
    let all = chars_of(s);
    let mut end: usize = all.len();
    assert(s@.take(end as int) =~= s@);
    while end > 0 && all[end - 1] == '/'
        invariant
            all@ == s@,
            end <= all@.len(),
            without_trailing_slashes(s@) == without_trailing_slashes(s@.take(end as int)),
        decreases end,
    {
        assert(s@.take(end as int).drop_last() =~= s@.take(end - 1));
        end -= 1;
    }
    s.substring_char(0, end).to_owned()
}

/// The part of `s` after the last `mark` in it, or all of it.
pub open spec fn after_last(s: Seq<char>, mark: char) -> Seq<char>
    decreases s.len(),
{
    if s.len() == 0 || s.last() == mark {
        Seq::empty()
    } else {
        after_last(s.drop_last(), mark).push(s.last())
    }
}

/// What follows a last `mark` is what stands after it.
pub proof fn lemma_after_last(head: Seq<char>, mark: char, tail: Seq<char>)
    requires
        head.len() > 0,
        head.last() == mark,
        forall|k: int| 0 <= k < tail.len() ==> #[trigger] tail[k] != mark,
    ensures
        after_last(head + tail, mark) == tail,
    decreases tail.len(),
{
    let all = head + tail;
    if tail.len() == 0 {
        assert(all =~= head);
    } else {
        assert(all.last() == tail.last());
        assert(all.drop_last() =~= head + tail.drop_last());
        assert(tail.last() == tail[tail.len() - 1]);
        lemma_after_last(head, mark, tail.drop_last());
        assert(tail.drop_last().push(tail.last()) =~= tail);
    }
}

/// The part of `s` after the last `mark` in it, or all of it.
pub fn last_part(s: &str, mark: char) -> (r: String)
    ensures
        r@ == after_last(s@, mark),
{
    let all = chars_of(s);
    let mut start: usize = all.len();
    assert(s@.take(s@.len() as int) =~= s@);
    assert(s@.subrange(s@.len() as int, s@.len() as int) =~= Seq::<char>::empty());
    assert(after_last(s@, mark) =~= after_last(s@.take(start as int), mark) + s@.subrange(
        start as int,
        s@.len() as int,
    ));
    while start > 0 && all[start - 1] != mark
        invariant
            all@ == s@,
            start <= all@.len(),
            after_last(s@, mark) == after_last(s@.take(start as int), mark) + s@.subrange(
                start as int,
                s@.len() as int,
            ),
        decreases start,
    {
        proof {
            let head = s@.take(start as int);
            assert(head.drop_last() =~= s@.take(start - 1));
            assert(after_last(head, mark) == after_last(s@.take(start - 1), mark).push(
                s@[start - 1],
            ));
            assert(after_last(s@, mark) =~= after_last(s@.take(start - 1), mark) + s@.subrange(
                start - 1,
                s@.len() as int,
            ));
        }
        start -= 1;
    }
    let r = s.substring_char(start, all.len());
    assert(r@ =~= after_last(s@, mark));
    r.to_owned()
}

/// The last path segment of `s`.
pub fn last_segment(s: &str) -> (r: String)
    ensures
        r@ == after_last(s@, '/'),
{
    last_part(s, '/')
}

/// The last line of `s`, blank or not, without its line ending; of an empty text,
/// the empty line.
pub open spec fn closing_line(s: Seq<char>) -> Seq<char> {
    let e: int = if s.len() > 0 && s.last() == '\n' { s.len() - 1 } else { s.len() as int };
    let a = line_start(s, e);
    s.subrange(a, if e < s.len() && a < e && s[e - 1] == '\r' { e - 1 } else { e })
}

/// Find the last line of `s`, blank or not.
pub fn find_closing_line(s: &str) -> (r: &str)
    ensures
        r@ == closing_line(s@),
{
    let all = chars_of(s);
    let fed = all.len() > 0 && all[all.len() - 1] == '\n';
    let e: usize = if fed { all.len() - 1 } else { all.len() };
    let mut a: usize = e;
    while a > 0 && all[a - 1] != '\n'
        invariant
            all@ == s@,
            a <= e <= all@.len(),
            line_start(s@, a as int) == line_start(s@, e as int),
        decreases a,
    {
        a -= 1;
    }
    if fed && a < e && all[e - 1] == '\r' {
        s.substring_char(a, e - 1)
    } else {
        s.substring_char(a, e)
    }
}

// ----- lists of strings ----------------------------------------------------------------

/// The characters of each string slice of a list.
pub open spec fn slices<'a>(list: Seq<&'a str>) -> Seq<Seq<char>> {
    list.map_values(|s: &'a str| s@)
}

/// Own each string slice of a list.
pub fn strings(parts: &[&str]) -> (r: Vec<String>)
    ensures
        views(r@) == slices(parts@),
{
    let mut owned: Vec<String> = Vec::new();
    let mut i: usize = 0;
    while i < parts.len()
        invariant
            i <= parts@.len(),
            owned@.len() == i,
            forall|k: int| 0 <= k < i ==> (#[trigger] owned@[k])@ == parts@[k]@,
        decreases parts@.len() - i,
    {
        owned.push(parts[i].to_owned());
        i += 1;
    }
    assert(views(owned@) =~= slices(parts@));
    owned
}

/// Whether no string of a list comes before one in front of it.
pub open spec fn in_order(list: Seq<Seq<char>>) -> bool {
    forall|i: int, j: int|
        0 <= i < j < list.len() ==> !before(#[trigger] list[j], #[trigger] list[i])
}

/// Sort strings by code point.
pub fn sorted(list: &[String]) -> (r: Vec<String>)
    ensures
        in_order(views(r@)),
        views(r@).to_multiset() == views(list@).to_multiset(),
{
    let ghost all = views(list@);
    let mut out: Vec<String> = Vec::new();
    let mut i: usize = 0;
    assert(views(out@) =~= all.take(0));
    while i < list.len()
        invariant
            i <= list@.len(),
            all == views(list@),
            in_order(views(out@)),
            views(out@).to_multiset() == all.take(i as int).to_multiset(),
        decreases list@.len() - i,
    {
        let ghost was = views(out@);
        let ghost item = list@[i as int]@;
        let mut at: usize = 0;
        while at < out.len() && !precedes(list[i].as_str(), out[at].as_str())
            invariant
                i < list@.len(),
                item == list@[i as int]@,
                at <= out@.len(),
                was == views(out@),
                forall|k: int| 0 <= k < at ==> !before(item, #[trigger] was[k]),
            decreases out@.len() - at,
        {
            at += 1;
        }
        proof {
            assert forall|k: int| at <= k < was.len() implies !before(#[trigger] was[k], item) by {
                if before(was[k], item) {
                    lemma_before_transitive(was[k], item, was[at as int]);
                    if k > at {
                        assert(!before(was[k], was[at as int]));
                    } else {
                        lemma_before_irreflexive(was[k]);
                    }
                }
            }
        }
        out.insert(at, list[i].clone());
        proof {
            let now = views(out@);
            assert(now =~= was.insert(at as int, item));
            assert forall|p: int, q: int| 0 <= p < q < now.len() implies !before(
                #[trigger] now[q],
                #[trigger] now[p],
            ) by {
                let op = if p < at { p } else { p - 1 };
                let oq = if q < at { q } else { q - 1 };
                if p == at {
                    assert(now[q] == was[oq]);
                } else if q == at {
                    assert(now[p] == was[op]);
                } else {
                    assert(now[p] == was[op] && now[q] == was[oq]);
                }
            }
            assert(all.take(i + 1) =~= all.take(i as int).push(item));
            vstd::seq_lib::to_multiset_insert(was, at as int, item);
            vstd::seq_lib::to_multiset_build(all.take(i as int), item);
        }
        i += 1;
    }
    assert(all.take(all.len() as int) =~= all);
    out
}

// ----- text that the standard library writes or reads ----------------------------------

/// What `{:?}` writes for a string.
pub uninterp spec fn debug_text(s: Seq<char>) -> Seq<char>;

/// Write `s` with `std`'s `Debug` formatting of strings: quoted, with escapes.
/// The text is a function of the characters alone; which escapes it holds is
/// left unsaid.
#[verifier::external_body]
pub(crate) fn debug_quoted(s: &str) -> (r: String)
    ensures
        r@ == debug_text(s@),
{
    format!("{s:?}")
}

/// What `String::from_utf8`'s error says of bytes that are not UTF-8.
pub uninterp spec fn utf8_error_text(bytes: Seq<u8>) -> Seq<char>;

/// Read bytes as UTF-8 with `String::from_utf8`: it succeeds exactly on valid
/// UTF-8, with the characters the bytes encode. The error is handed on as the
/// text that it displays, which is a function of the bytes.
#[verifier::external_body]
pub(crate) fn utf8_text(bytes: Vec<u8>) -> (r: Result<String, String>)
    ensures
        r is Ok <==> valid_utf8(bytes@),
        r matches Ok(s) ==> s@ == decode_utf8(bytes@),
        r matches Err(e) ==> e@ == utf8_error_text(bytes@),
{
    String::from_utf8(bytes).map_err(|e| e.to_string())
}

/// What `String::from_utf8_lossy` reads from bytes.
pub uninterp spec fn lossy_text(bytes: Seq<u8>) -> Seq<char>;

/// Read bytes as text with `String::from_utf8_lossy`: valid UTF-8 as the characters
/// it encodes. What stands for bytes that are not UTF-8 is a function of the bytes
/// and is left unsaid.
#[verifier::external_body]
pub(crate) fn text_lossy(bytes: &[u8]) -> (r: String)
    ensures
        r@ == lossy_text(bytes@),
        valid_utf8(bytes@) ==> r@ == decode_utf8(bytes@),
{
    String::from_utf8_lossy(bytes).into_owned()
}

// ----- laws ----------------------------------------------------------------------------

proof fn lemma_first_visible(s: Seq<char>)
    ensures
        0 <= first_visible(s) <= s.len(),
        forall|i: int| 0 <= i < first_visible(s) ==> is_white(#[trigger] s[i]),
        first_visible(s) < s.len() ==> !is_white(s[first_visible(s)]),
    decreases s.len(),
{
    if s.len() > 0 && is_white(s[0]) {
        let rest = s.drop_first();
        lemma_first_visible(rest);
        assert forall|i: int| 0 <= i < first_visible(s) implies is_white(#[trigger] s[i]) by {
            if i > 0 {
                assert(rest[i - 1] == s[i]);
            }
        }
        if first_visible(s) < s.len() {
            assert(rest[first_visible(rest)] == s[first_visible(s)]);
        }
    }
}

proof fn lemma_last_visible(s: Seq<char>)
    ensures
        -1 <= last_visible(s) < s.len(),
        forall|i: int| last_visible(s) < i < s.len() ==> is_white(#[trigger] s[i]),
        last_visible(s) >= 0 ==> !is_white(s[last_visible(s)]),
    decreases s.len(),
{
    if s.len() > 0 && is_white(s.last()) {
        let less = s.drop_last();
        lemma_last_visible(less);
        assert forall|i: int| last_visible(s) < i < s.len() implies is_white(#[trigger] s[i]) by {
            if i < less.len() {
                assert(less[i] == s[i]);
            }
        }
        if last_visible(s) >= 0 {
            assert(less[last_visible(less)] == s[last_visible(s)]);
        }
    }
}

/// Trimming takes off white space at both ends, all of it, and nothing else.
pub proof fn trim_is_exact(s: Seq<char>)
    ensures
        trimmed(s).len() == 0 <==> blank(s),
        trimmed(s).len() > 0 ==> !is_white(trimmed(s)[0]) && !is_white(trimmed(s).last()),
        exists|a: int|
            0 <= a && a + trimmed(s).len() <= s.len() && #[trigger] s.subrange(
                a,
                a + trimmed(s).len(),
            ) == trimmed(s) && blank(s.take(a)) && blank(s.skip(a + trimmed(s).len())),
{
    lemma_first_visible(s);
    lemma_last_visible(s);
    let a = first_visible(s);
    let b = last_visible(s) + 1;
    if b == 0 {
        assert(s.subrange(0, 0) =~= trimmed(s));
        assert(s.skip(0) =~= s);
        assert(blank(s));
    } else {
        assert(a < b) by {
            if a >= b {
                assert(is_white(s[b - 1]));
            }
        }
        assert(trimmed(s)[0] == s[a]);
        assert(trimmed(s).last() == s[b - 1]);
        assert(s.subrange(a, a + trimmed(s).len()) =~= trimmed(s));
        assert(!blank(s)) by {
            assert(!is_white(s[a]));
        }
        assert forall|i: int| 0 <= i < s.skip(b).len() implies is_white(
            #[trigger] s.skip(b)[i],
        ) by {
            assert(s.skip(b)[i] == s[b + i]);
        }
        assert(blank(s.take(a)));
    }
}

proof fn lemma_line_start(s: Seq<char>, p: int)
    requires
        0 <= p <= s.len(),
    ensures
        0 <= line_start(s, p) <= p,
        line_start(s, p) == 0 || s[line_start(s, p) - 1] == '\n',
        forall|i: int| line_start(s, p) <= i < p ==> #[trigger] s[i] != '\n',
    decreases p,
{
    if p > 0 && s[p - 1] != '\n' {
        lemma_line_start(s, p - 1);
    }
}

proof fn lemma_line_end(s: Seq<char>, p: int)
    requires
        0 <= p <= s.len(),
    ensures
        p <= line_end(s, p) <= s.len(),
        line_end(s, p) == s.len() || s[line_end(s, p)] == '\n',
        forall|i: int| p <= i < line_end(s, p) ==> #[trigger] s[i] != '\n',
    decreases s.len() - p,
{
    if p < s.len() && s[p] != '\n' {
        lemma_line_end(s, p + 1);
    }
}

/// The last line that is not blank is found wherever it stands: it begins a line, holds no
/// line break, is not blank, and nothing but white space follows it. Only a blank text has none.
pub proof fn last_line_is_exact(s: Seq<char>)
    ensures
        last_line(s) is None <==> blank(s),
        last_line(s) matches Some(line) ==> exists|a: int|
            0 <= a && a + line.len() <= s.len() && #[trigger] s.subrange(a, a + line.len()) == line
                && (a == 0 || s[a - 1] == '\n') && !blank(line) && !line.contains('\n') && blank(
                s.skip(a + line.len()),
            ),
{
    lemma_last_visible(s);
    let p = last_visible(s);
    if p >= 0 {
        let a = line_start(s, p);
        let b = line_end(s, p);
        lemma_line_start(s, p);
        lemma_line_end(s, p);
        assert(!is_white(s[p]));
        assert(is_white('\n') && is_white('\r'));
        assert(b > p) by {
            if b == p {
                assert(s[p] == '\n');
            }
        }
        let e = if b < s.len() && s[b - 1] == '\r' {
            b - 1
        } else {
            b
        };
        assert(e > p) by {
            if e == p {
                assert(s[p] == '\r');
            }
        }
        let line = last_line(s)->Some_0;
        assert(line == s.subrange(a, e));
        assert(s.subrange(a, a + line.len()) =~= line);
        assert(line[p - a] == s[p]);
        assert(!blank(line));
        assert(!line.contains('\n')) by {
            if line.contains('\n') {
                let k = choose|k: int| 0 <= k < line.len() && line[k] == '\n';
                assert(s[a + k] == '\n');
            }
        }
        assert forall|i: int| 0 <= i < s.skip(e).len() implies is_white(
            #[trigger] s.skip(e)[i],
        ) by {
            assert(s.skip(e)[i] == s[e + i]);
        }
        assert(!blank(s)) by {
            assert(!is_white(s[p]));
        }
    } else {
        assert(blank(s));
    }
}

/// A text begins with its first part, then the separator and the rest.
pub proof fn join_begins_with_the_first(parts: Seq<Seq<char>>, sep: Seq<char>)
    requires
        parts.len() >= 2,
    ensures
        joined(parts, sep) == parts[0] + sep + joined(parts.drop_first(), sep),
    decreases parts.len(),
{
    let less = parts.drop_last();
    if parts.len() == 2 {
        assert(joined(less, sep) == less[0]);
        assert(parts.drop_first()[0] == parts.last());
        assert(joined(parts, sep) =~= parts[0] + sep + joined(parts.drop_first(), sep));
    } else {
        join_begins_with_the_first(less, sep);
        assert(less.drop_first() =~= parts.drop_first().drop_last());
        assert(parts.drop_first().last() == parts.last());
        assert(joined(parts, sep) =~= parts[0] + sep + joined(parts.drop_first(), sep));
    }
}

/// What follows the last mark is the longest ending of a text that does not hold the mark.
pub proof fn after_last_is_exact(s: Seq<char>, mark: char)
    ensures
        ({
            let part = after_last(s, mark);
            let at = s.len() - part.len();
            &&& part.len() <= s.len()
            &&& part == s.skip(at)
            &&& !part.contains(mark)
            &&& at == 0 || s[at - 1] == mark
        }),
    decreases s.len(),
{
    if s.len() > 0 && s.last() != mark {
        let less = s.drop_last();
        after_last_is_exact(less, mark);
        let part = after_last(s, mark);
        let fewer = after_last(less, mark);
        let at = s.len() - part.len();
        assert(part =~= s.skip(at));
        assert(!part.contains(mark)) by {
            if part.contains(mark) {
                let k = choose|k: int| 0 <= k < part.len() && part[k] == mark;
                if k < fewer.len() {
                    assert(fewer[k] == mark);
                }
            }
        }
    } else {
        assert(after_last(s, mark) =~= s.skip(s.len() as int));
    }
}

/// Only slashes are dropped, and all that a text ends in.
pub proof fn trailing_slashes_are_dropped(s: Seq<char>)
    ensures
        ({
            let base = without_trailing_slashes(s);
            &&& base.len() <= s.len()
            &&& base == s.take(base.len() as int)
            &&& base.len() == 0 || base.last() != '/'
            &&& forall|i: int| base.len() <= i < s.len() ==> #[trigger] s[i] == '/'
        }),
    decreases s.len(),
{
    if s.len() > 0 && s.last() == '/' {
        let less = s.drop_last();
        trailing_slashes_are_dropped(less);
        let base = without_trailing_slashes(s);
        assert(base =~= s.take(base.len() as int));
        assert forall|i: int| base.len() <= i < s.len() implies #[trigger] s[i] == '/' by {
            if i < less.len() {
                assert(less[i] == s[i]);
            }
        }
    } else {
        assert(s =~= s.take(s.len() as int));
    }
}

/// Texts are ordered by the first character in which they differ, and a text stands before
/// every longer one that begins with it.
pub proof fn order_is_by_the_first_difference(a: Seq<char>, b: Seq<char>, k: int)
    requires
        0 <= k <= a.len(),
        k < b.len(),
        a.take(k) == b.take(k),
        k == a.len() || a[k] < b[k],
    ensures
        before(a, b),
    decreases k,
{
    if k > 0 {
        assert(a.take(k)[0] == a[0]);
        assert(b.take(k)[0] == b[0]);
        assert(a.drop_first().take(k - 1) =~= a.take(k).drop_first());
        assert(b.drop_first().take(k - 1) =~= b.take(k).drop_first());
        order_is_by_the_first_difference(a.drop_first(), b.drop_first(), k - 1);
    }
}

/// A number that fits is read back from its numeral, with or without a plus sign, and nothing
/// is read from a text that holds anything but digits behind it.
pub proof fn numbers_are_read_back(n: usize, s: Seq<char>)
    ensures
        unsigned_value(decimal(n as nat)) == Some(n),
        unsigned_value(seq!['+'] + decimal(n as nat)) == Some(n),
        unsigned_value(s) is Some ==> s.len() > 0 && forall|i: int|
            0 < i < s.len() ==> '0' <= #[trigger] s[i] <= '9',
        unsigned_value(Seq::empty()) is None,
{
    numeral_reads_back(n as nat);
    let numeral = decimal(n as nat);
    assert(numeral[0] != '+');
    assert((seq!['+'] + numeral).skip(1) =~= numeral);
    if unsigned_value(s) is Some && s[0] == '+' {
        assert forall|i: int| 0 < i < s.len() implies '0' <= #[trigger] s[i] <= '9' by {
            assert(s.skip(1)[i - 1] == s[i]);
        }
    }
}

/// A numeral has no leading zero.
pub proof fn numeral_has_no_leading_zero(n: nat)
    requires
        n > 0,
    ensures
        decimal(n)[0] != '0',
    decreases n,
{
    numeral_reads_back(n);
    if n >= 10 {
        numeral_has_no_leading_zero(n / 10);
        numeral_reads_back(n / 10);
        assert(decimal(n)[0] == decimal(n / 10)[0]);
    }
}

/// A sorted list never falls: of two of its strings the one in front is the same as the other
/// or stands before it.
pub proof fn sorted_list_never_falls(list: Seq<Seq<char>>, i: int, j: int)
    requires
        in_order(list),
        0 <= i < j < list.len(),
    ensures
        list[i] == list[j] || before(list[i], list[j]),
{
    lemma_before_total(list[i], list[j]);
}

/// The last line of a text, blank or not, is what follows its last line break but a final one,
/// without its own ending: a line feed, or a carriage return and a line feed.
pub proof fn closing_line_is_exact(s: Seq<char>)
    ensures
        ({
            let line = closing_line(s);
            &&& !line.contains('\n')
            &&& exists|a: int|
                0 <= a && a + line.len() <= s.len() && (a == 0 || s[a - 1] == '\n')
                    && #[trigger] s.subrange(a, a + line.len()) == line && {
                    let ending = s.skip(a + line.len());
                    ||| ending == seq!['\n'] && (line.len() == 0 || line.last() != '\r')
                    ||| ending == seq!['\r', '\n']
                    ||| ending.len() == 0 && (s.len() == 0 || s.last() != '\n')
                }
        }),
{
    let fed = s.len() > 0 && s.last() == '\n';
    let e: int = if fed {
        s.len() - 1
    } else {
        s.len() as int
    };
    lemma_line_start(s, e);
    let a = line_start(s, e);
    let line = closing_line(s);
    assert(s.subrange(a, a + line.len()) =~= line);
    assert(!line.contains('\n')) by {
        if line.contains('\n') {
            let k = choose|k: int| 0 <= k < line.len() && line[k] == '\n';
            assert(s[a + k] == '\n');
        }
    }
    let ending = s.skip(a + line.len());
    if fed && a < e && s[e - 1] == '\r' {
        assert(ending =~= seq!['\r', '\n']);
    } else if fed {
        assert(ending =~= seq!['\n']);
        if line.len() > 0 {
            assert(line.last() == s[e - 1]);
        }
    } else {
        assert(ending.len() == 0);
    }
}

} // verus!
