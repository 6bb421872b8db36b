//! Character-level helpers for the plain-text output of the backend tools.
use vstd::prelude::*;
use vstd::string::*;

verus! {

/// The characters that carry the Unicode `White_Space` property.
pub open spec fn is_ws(c: char) -> bool {
    ('\u{9}' <= c && c <= '\u{d}') || c == ' ' || c == '\u{85}' || c == '\u{a0}' || c
        == '\u{1680}' || ('\u{2000}' <= c && c <= '\u{200a}') || c == '\u{2028}' || c
        == '\u{2029}' || c == '\u{202f}' || c == '\u{205f}' || c == '\u{3000}'
}

pub fn is_whitespace(c: char) -> (r: bool)
    ensures
        r == is_ws(c),
{
    ('\u{9}' <= c && c <= '\u{d}') || c == ' ' || c == '\u{85}' || c == '\u{a0}' || c
        == '\u{1680}' || ('\u{2000}' <= c && c <= '\u{200a}') || c == '\u{2028}' || c
        == '\u{2029}' || c == '\u{202f}' || c == '\u{205f}' || c == '\u{3000}'
}

/// `s` without its leading whitespace.
pub open spec fn trim_left(s: Seq<char>) -> Seq<char>
    decreases s.len(),
{
    if s.len() > 0 && is_ws(s[0]) {
        trim_left(s.drop_first())
    } else {
        s
    }
}

/// `s` without its trailing whitespace.
pub open spec fn trim_right(s: Seq<char>) -> Seq<char>
    decreases s.len(),
{
    if s.len() > 0 && is_ws(s.last()) {
        trim_right(s.drop_last())
    } else {
        s
    }
}

/// `s` without leading and trailing whitespace.
pub open spec fn trimmed(s: Seq<char>) -> Seq<char> {
    trim_right(trim_left(s))
}

/// The slice of `s` with leading and trailing whitespace removed.
pub fn trim(s: &str) -> (r: &str)
    ensures
        r@ == trimmed(s@),
{
    let n = s.unicode_len();
    let mut i: usize = 0;
    assert(s@.subrange(0, n as int) =~= s@);
    while i < n && is_whitespace(s.get_char(i))
        invariant
            i <= n,
            n == s@.len(),
            trim_left(s@.subrange(i as int, n as int)) == trim_left(s@),
        decreases n - i,
    {
        assert(s@.subrange(i as int, n as int).drop_first() =~= s@.subrange(i + 1, n as int));
        i = i + 1;
    }
    assert(trim_left(s@) == s@.subrange(i as int, n as int));
    let mut j: usize = n;
    while j > i && is_whitespace(s.get_char(j - 1))
        invariant
            i <= j <= n,
            n == s@.len(),
            trim_left(s@) == s@.subrange(i as int, n as int),
            trim_right(s@.subrange(i as int, j as int)) == trimmed(s@),
        decreases j,
    {
        assert(s@.subrange(i as int, j as int).drop_last() =~= s@.subrange(i as int, j - 1));
        j = j - 1;
    }
    s.substring_char(i, j)
}

/// `s` begins with `p`.
pub open spec fn has_prefix(s: Seq<char>, p: Seq<char>) -> bool {
    p.len() <= s.len() && s.subrange(0, p.len() as int) == p
}

pub fn starts_with(s: &str, p: &str) -> (r: bool)
    ensures
        r == has_prefix(s@, p@),
{
    let n = s.unicode_len();
    let m = p.unicode_len();
    if m > n {
        return false;
    }
    let mut i: usize = 0;
    while i < m
        invariant
            i <= m <= n,
            n == s@.len(),
            m == p@.len(),
            forall|k: int| 0 <= k < i ==> s@[k] == p@[k],
        decreases m - i,
    {
        if s.get_char(i) != p.get_char(i) {
            assert(s@.subrange(0, m as int)[i as int] != p@[i as int]);
            return false;
        }
        i = i + 1;
    }
    assert(s@.subrange(0, m as int) =~= p@);
    true
}

/// What follows the prefix `p` in `s`, when `s` begins with it.
pub open spec fn after_prefix(s: Seq<char>, p: Seq<char>) -> Option<Seq<char>> {
    if has_prefix(s, p) {
        Some(s.subrange(p.len() as int, s.len() as int))
    } else {
        None
    }
}

pub fn strip_prefix<'a>(s: &'a str, p: &str) -> (r: Option<&'a str>)
    ensures
        r matches Some(t) ==> after_prefix(s@, p@) == Some(t@),
        r is None ==> after_prefix(s@, p@) is None,
{
    if starts_with(s, p) {
        Some(s.substring_char(p.unicode_len(), s.unicode_len()))
    } else {
        None
    }
}

pub fn find_char(s: &str, c: char) -> (r: Option<usize>)
    ensures
        r matches Some(i) ==> i < s@.len() && s@[i as int] == c && forall|k: int|
            0 <= k < i ==> s@[k] != c,
        r is None ==> forall|k: int| 0 <= k < s@.len() ==> s@[k] != c,
{
    let n = s.unicode_len();
    let mut i: usize = 0;
    while i < n
        invariant
            i <= n,
            n == s@.len(),
            forall|k: int| 0 <= k < i ==> s@[k] != c,
        decreases n - i,
    {
        if s.get_char(i) == c {
            return Some(i);
        }
        i = i + 1;
    }
    None
}

pub fn rfind_char(s: &str, c: char) -> (r: Option<usize>)
    ensures
        r matches Some(i) ==> i < s@.len() && s@[i as int] == c && forall|k: int|
            i < k < s@.len() ==> s@[k] != c,
        r is None ==> forall|k: int| 0 <= k < s@.len() ==> s@[k] != c,
{
    let n = s.unicode_len();
    let mut j: usize = n;
    while j > 0
        invariant
            j <= n,
            n == s@.len(),
            forall|k: int| j <= k < n ==> s@[k] != c,
        decreases j,
    {
        if s.get_char(j - 1) == c {
            return Some(j - 1);
        }
        j = j - 1;
    }
    None
}

/// The text of an optional `String`.
pub open spec fn opt_text(o: Option<String>) -> Option<Seq<char>> {
    match o {
        Some(s) => Some(s@),
        None => None,
    }
}

/// The text of each `String` in `v`.
pub open spec fn views(v: Seq<String>) -> Seq<Seq<char>> {
    v.map_values(|x: String| x@)
}

/// The pieces of `s` between occurrences of `c`, in order; there is always at
/// least one piece, and `c` itself belongs to none.
pub open spec fn split_on(s: Seq<char>, c: char) -> Seq<Seq<char>>
    decreases s.len(),
{
    if s.len() == 0 {
        seq![Seq::<char>::empty()]
    } else {
        let r = split_on(s.drop_last(), c);
        if s.last() == c {
            r.push(Seq::<char>::empty())
        } else {
            r.update(r.len() - 1, r.last().push(s.last()))
        }
    }
}

/// Splitting always yields at least one piece.
pub proof fn lemma_split_nonempty(s: Seq<char>, c: char)
    ensures
        split_on(s, c).len() >= 1,
    decreases s.len(),
{
    if s.len() > 0 {
        lemma_split_nonempty(s.drop_last(), c);
    }
}

/// Text free of `c` is a single piece.
pub proof fn lemma_split_without(head: Seq<char>, c: char)
    requires
        forall|k: int| 0 <= k < head.len() ==> head[k] != c,
    ensures
        split_on(head, c) == seq![head],
    decreases head.len(),
{
    if head.len() > 0 {
        lemma_split_without(head.drop_last(), c);
        assert(head.drop_last().push(head.last()) =~= head);
        assert(head.last() == head[head.len() - 1]);
        assert(seq![head.drop_last()].update(0, head.drop_last().push(head.last())) =~= seq![head]);
    } else {
        assert(head =~= Seq::<char>::empty());
    }
}

/// Splitting at a first `c` gives the text before it, then the pieces of the
/// rest.
pub proof fn lemma_split_first(head: Seq<char>, c: char, rest: Seq<char>)
    requires
        forall|k: int| 0 <= k < head.len() ==> head[k] != c,
    ensures
        split_on(head + seq![c] + rest, c) == seq![head] + split_on(rest, c),
    decreases rest.len(),
{
    let x = head + seq![c] + rest;
    if rest.len() == 0 {
        assert(x.drop_last() =~= head);
        lemma_split_without(head, c);
        assert(split_on(rest, c) == seq![Seq::<char>::empty()]);
        assert(split_on(x, c) =~= seq![head] + split_on(rest, c));
    } else {
        let r0 = rest.drop_last();
        assert(x.drop_last() =~= head + seq![c] + r0);
        lemma_split_first(head, c, r0);
        lemma_split_nonempty(r0, c);
        let inner = split_on(r0, c);
        if rest.last() == c {
            assert(split_on(x, c) =~= seq![head] + split_on(rest, c));
        } else {
            assert((seq![head] + inner).update(inner.len() as int, inner.last().push(rest.last()))
                =~= seq![head] + inner.update(inner.len() - 1, inner.last().push(rest.last())));
            assert(split_on(x, c) =~= seq![head] + split_on(rest, c));
        }
    }
}

/// Relies on `str::split_once` with a `char` pattern: the text before the
/// first `c` and the text after it, when `s` holds a `c`.
#[verifier::external_body]
fn split_at_first<'a>(s: &'a str, c: char) -> (r: Option<(&'a str, &'a str)>)
    ensures
        r matches Some(p) ==> exists|i: int|
            0 <= i < s@.len() && s@[i] == c && (forall|k: int| 0 <= k < i ==> s@[k] != c)
                && p.0@ == s@.subrange(0, i) && p.1@ == s@.subrange(i + 1, s@.len() as int),
        r is None ==> forall|k: int| 0 <= k < s@.len() ==> s@[k] != c,
{
    s.split_once(c)
}

/// The pieces of `s` between occurrences of `c`.
pub fn split_char(s: &str, c: char) -> (r: Vec<String>)
    ensures
        views(r@) == split_on(s@, c),
{
    let mut parts: Vec<String> = Vec::new();
    let mut rest: &str = s;
    loop
        invariant
            views(parts@) + split_on(rest@, c) == split_on(s@, c),
        decreases rest@.len(),
    {
        match split_at_first(rest, c) {
            Some((head, tail)) => {
                proof {
                    let i = choose|i: int|
                        0 <= i < rest@.len() && rest@[i] == c && (forall|k: int|
                            0 <= k < i ==> rest@[k] != c) && head@ == rest@.subrange(0, i)
                            && tail@ == rest@.subrange(i + 1, rest@.len() as int);
                    assert(rest@ =~= head@ + seq![c] + tail@);
                    lemma_split_first(head@, c, tail@);
                }
                let piece = String::from_str(head);
                proof {
                    assert(views(parts@.push(piece)) =~= views(parts@).push(piece@));
                    assert(views(parts@).push(piece@) + split_on(tail@, c) =~= views(parts@) + (
                    seq![head@] + split_on(tail@, c)));
                }
                parts.push(piece);
                rest = tail;
            },
            None => {
                let last = String::from_str(rest);
                proof {
                    lemma_split_without(rest@, c);
                    assert(views(parts@.push(last)) =~= views(parts@) + seq![last@]);
                }
                parts.push(last);
                return parts;
            },
        }
    }
}

/// A line without the carriage return that ends it, if any.
pub open spec fn strip_cr(l: Seq<char>) -> Seq<char> {
    if l.len() > 0 && l.last() == '\r' {
        l.drop_last()
    } else {
        l
    }
}

/// The lines of `s`: the pieces between line feeds, with no empty piece after
/// a final line feed, each without a carriage return at its end.
pub open spec fn lines_of(s: Seq<char>) -> Seq<Seq<char>> {
    let p = split_on(s, '\n');
    let q = if p.last().len() == 0 {
        p.drop_last()
    } else {
        p
    };
    q.map_values(|l: Seq<char>| strip_cr(l))
}

/// `l` without a carriage return at its end.
pub fn without_cr(l: &str) -> (r: &str)
    ensures
        r@ == strip_cr(l@),
{
    let n = l.unicode_len();
    if n > 0 && l.get_char(n - 1) == '\r' {
        l.substring_char(0, n - 1)
    } else {
        l
    }
}

/// The lines of `s`.
pub fn lines(s: &str) -> (r: Vec<String>)
    ensures
        views(r@) == lines_of(s@),
{
    let pieces = split_char(s, '\n');
    let ghost p = split_on(s@, '\n');
    proof {
        lemma_split_nonempty(s@, '\n');
        assert(p.len() == pieces@.len());
        assert(p.last() == pieces@.last()@);
    }
    let mut keep = pieces.len();
    if keep > 0 && pieces[keep - 1].unicode_len() == 0 {
        keep = keep - 1;
    }
    let ghost q = if p.last().len() == 0 {
        p.drop_last()
    } else {
        p
    };
    assert(keep == q.len());
    let mut out: Vec<String> = Vec::new();
    let mut i: usize = 0;
    while i < keep
        invariant
            i <= keep <= pieces.len(),
            keep == q.len(),
            views(pieces@) == p,
            forall|k: int| 0 <= k < q.len() ==> q[k] == p[k],
            views(out@) == q.subrange(0, i as int).map_values(|l: Seq<char>| strip_cr(l)),
        decreases keep - i,
    {
        let line = String::from_str(without_cr(pieces[i].as_str()));
        proof {
            assert(pieces@[i as int]@ == p[i as int]);
            assert(line@ == strip_cr(q[i as int]));
            assert(views(out@.push(line)) =~= views(out@).push(line@));
            assert(q.subrange(0, i + 1).map_values(|l: Seq<char>| strip_cr(l)) =~= q.subrange(
                0,
                i as int,
            ).map_values(|l: Seq<char>| strip_cr(l)).push(strip_cr(q[i as int])));
            assert(views(out@.push(line)) =~= q.subrange(0, i + 1).map_values(
                |l: Seq<char>| strip_cr(l),
            ));
        }
        out.push(line);
        i = i + 1;
    }
    assert(q.subrange(0, keep as int) =~= q);
    out
}

/// `c` is an ASCII decimal digit.
pub open spec fn is_digit(c: char) -> bool {
    '0' <= c && c <= '9'
}

/// The value of the decimal digits `s`, most significant first.
pub open spec fn digits_value(s: Seq<char>) -> nat
    decreases s.len(),
{
    if s.len() == 0 {
        0
    } else {
        digits_value(s.drop_last()) * 10 + ((s.last() as u32) - ('0' as u32)) as nat
    }
}

/// A longer run of digits is worth at least as much as its prefix.
pub proof fn lemma_digits_value_grows(s: Seq<char>, k: int)
    requires
        0 <= k <= s.len(),
        forall|i: int| 0 <= i < s.len() ==> is_digit(s[i]),
    ensures
        digits_value(s.subrange(0, k)) <= digits_value(s),
    decreases s.len() - k,
{
    if k < s.len() {
        let t = s.subrange(0, k + 1);
        assert(t.drop_last() =~= s.subrange(0, k));
        assert(is_digit(t.last()));
        lemma_digits_value_grows(s, k + 1);
    } else {
        assert(s.subrange(0, k) =~= s);
    }
}

/// A non-empty run of digits, read as a number no larger than `bound`.
pub open spec fn bounded_digits(s: Seq<char>, bound: nat) -> Option<nat> {
    if s.len() > 0 && (forall|i: int| 0 <= i < s.len() ==> is_digit(s[i])) && digits_value(s)
        <= bound {
        Some(digits_value(s))
    } else {
        None
    }
}

/// Reads the digits `s` as a number, unless `s` is empty, holds another
/// character, or is worth more than `bound`.
pub fn parse_digits(s: &str, bound: u64) -> (r: Option<u64>)
    ensures
        r matches Some(v) ==> bounded_digits(s@, bound as nat) == Some(v as nat),
        r is None ==> bounded_digits(s@, bound as nat) is None,
{
    let n = s.unicode_len();
    if n == 0 {
        return None;
    }
    let mut acc: u64 = 0;
    let mut i: usize = 0;
    assert(s@.subrange(0, 0) =~= Seq::<char>::empty());
    while i < n
        invariant
            i <= n,
            n == s@.len(),
            forall|k: int| 0 <= k < i ==> is_digit(s@[k]),
            acc as nat == digits_value(s@.subrange(0, i as int)),
            acc <= bound,
        decreases n - i,
    {
        let c = s.get_char(i);
        if !('0' <= c && c <= '9') {
            return None;
        }
        let d: u64 = ((c as u32) - ('0' as u32)) as u64;
        assert(s@.subrange(0, i + 1).drop_last() =~= s@.subrange(0, i as int));
        if d > bound || acc > (bound - d) / 10 {
            proof {
                assert(forall|k: int| 0 <= k < i + 1 ==> is_digit(s@[k]));
                assert(acc * 10 + d > bound) by (nonlinear_arith)
                    requires
                        d > bound || acc > (bound - d) / 10,
                        d <= 9,
                ;
                if forall|k: int| 0 <= k < n ==> is_digit(s@[k]) {
                    lemma_digits_value_grows(s@, i + 1);
                }
            }
            return None;
        }
        assert(acc * 10 + d <= bound) by (nonlinear_arith)
            requires
                acc <= (bound - d) / 10,
                d <= bound,
        ;
        acc = acc * 10 + d;
        i = i + 1;
    }
    assert(s@.subrange(0, n as int) =~= s@);
    Some(acc)
}

/// What Rust's `usize::from_str` reads from `s`: an optional `+`, then digits.
pub open spec fn parsed_unsigned(s: Seq<char>) -> Option<nat> {
    if s.len() > 0 && s[0] == '+' {
        bounded_digits(s.drop_first(), usize::MAX as nat)
    } else {
        bounded_digits(s, usize::MAX as nat)
    }
}

/// Reads a count such as the one `rev-list --count` prints.
pub fn parse_usize(s: &str) -> (r: Option<usize>)
    ensures
        r matches Some(v) ==> parsed_unsigned(s@) == Some(v as nat),
        r is None ==> parsed_unsigned(s@) is None,
{
    let n = s.unicode_len();
    let digits = if n > 0 && s.get_char(0) == '+' {
        assert(s@.subrange(1, n as int) =~= s@.drop_first());
        s.substring_char(1, n)
    } else {
        s
    };
    match parse_digits(digits, usize::MAX as u64) {
        Some(v) => Some(v as usize),
        None => None,
    }
}

/// What Rust's `i64::from_str` reads from `s`: an optional sign, then digits.
pub open spec fn parsed_signed(s: Seq<char>) -> Option<int> {
    if s.len() > 0 && s[0] == '-' {
        match bounded_digits(s.drop_first(), 0x8000_0000_0000_0000) {
            Some(v) => Some(-v),
            None => None,
        }
    } else if s.len() > 0 && s[0] == '+' {
        match bounded_digits(s.drop_first(), 0x7fff_ffff_ffff_ffff) {
            Some(v) => Some(v as int),
            None => None,
        }
    } else {
        match bounded_digits(s, 0x7fff_ffff_ffff_ffff) {
            Some(v) => Some(v as int),
            None => None,
        }
    }
}

/// Reads a signed number such as a commit timestamp.
pub fn parse_i64(s: &str) -> (r: Option<i64>)
    ensures
        r matches Some(v) ==> parsed_signed(s@) == Some(v as int),
        r is None ==> parsed_signed(s@) is None,
{
    let n = s.unicode_len();
    if n > 0 && s.get_char(0) == '-' {
        assert(s@.subrange(1, n as int) =~= s@.drop_first());
        match parse_digits(s.substring_char(1, n), 0x8000_0000_0000_0000) {
            Some(v) => Some((0i128 - v as i128) as i64),
            None => None,
        }
    } else {
        let digits = if n > 0 && s.get_char(0) == '+' {
            assert(s@.subrange(1, n as int) =~= s@.drop_first());
            s.substring_char(1, n)
        } else {
            s
        };
        match parse_digits(digits, 0x7fff_ffff_ffff_ffff) {
            Some(v) => Some(v as i64),
            None => None,
        }
    }
}

/// The code point of the ASCII lower-case form of `c`.
pub open spec fn ascii_lower(c: char) -> u32 {
    if 'A' <= c && c <= 'Z' {
        (c as u32 + 32) as u32
    } else {
        c as u32
    }
}

/// `s` begins with `p` when ASCII letters are compared without case.
pub open spec fn has_prefix_ignoring_case(s: Seq<char>, p: Seq<char>) -> bool {
    p.len() <= s.len() && forall|i: int| 0 <= i < p.len() ==> ascii_lower(s[i]) == ascii_lower(p[i])
}

pub fn lower_code(c: char) -> (r: u32)
    ensures
        r == ascii_lower(c),
{
    if 'A' <= c && c <= 'Z' {
        c as u32 + 32
    } else {
        c as u32
    }
}

pub fn starts_with_ignoring_case(s: &str, p: &str) -> (r: bool)
    ensures
        r == has_prefix_ignoring_case(s@, p@),
{
    let n = s.unicode_len();
    let m = p.unicode_len();
    if m > n {
        return false;
    }
    let mut i: usize = 0;
    while i < m
        invariant
            i <= m <= n,
            n == s@.len(),
            m == p@.len(),
            forall|k: int| 0 <= k < i ==> ascii_lower(s@[k]) == ascii_lower(p@[k]),
        decreases m - i,
    {
        if lower_code(s.get_char(i)) != lower_code(p.get_char(i)) {
            return false;
        }
        i = i + 1;
    }
    true
}

/// `p` occurs in `s` at position `i`.
pub open spec fn occurs_at(s: Seq<char>, p: Seq<char>, i: int) -> bool {
    0 <= i && i + p.len() <= s.len() && s.subrange(i, i + p.len()) == p
}

/// The first position at which `p` occurs in `s`.
pub fn find_str(s: &str, p: &str) -> (r: Option<usize>)
    ensures
        r matches Some(i) ==> occurs_at(s@, p@, i as int) && forall|k: int|
            0 <= k < i ==> !occurs_at(s@, p@, k),
        r is None ==> forall|k: int| !occurs_at(s@, p@, k),
{
    let n = s.unicode_len();
    let m = p.unicode_len();
    if m > n {
        return None;
    }
    let mut i: usize = 0;
    while i <= n - m
        invariant
            m <= n,
            n == s@.len(),
            m == p@.len(),
            i <= n - m + 1,
            forall|k: int| 0 <= k < i ==> !occurs_at(s@, p@, k),
        decreases n - m + 1 - i,
    {
        let rest = s.substring_char(i, n);
        if starts_with(rest, p) {
            assert(rest@.subrange(0, m as int) =~= s@.subrange(i as int, i + m));
            return Some(i);
        }
        assert(rest@.subrange(0, m as int) =~= s@.subrange(i as int, i + m));
        if i == n - m {
            return None;
        }
        i = i + 1;
    }
    None
}

/// A copy of `v`, element by element.
pub fn copy_strings(v: &Vec<String>) -> (r: Vec<String>)
    ensures
        views(r@) == views(v@),
{
    let mut copy: Vec<String> = Vec::new();
    let mut i: usize = 0;
    while i < v.len()
        invariant
            i <= v.len(),
            views(copy@) == views(v@.subrange(0, i as int)),
        decreases v.len() - i,
    {
        let item = v[i].clone();
        proof {
            assert(views(copy@.push(item)) =~= views(copy@).push(item@));
            assert(views(v@.subrange(0, i + 1)) =~= views(v@.subrange(0, i as int)).push(
                v@[i as int]@,
            ));
        }
        copy.push(item);
        i = i + 1;
    }
    assert(v@.subrange(0, v.len() as int) =~= v@);
    copy
}

/// `a` and `b` hold the same characters.
pub fn same_text(a: &str, b: &str) -> (r: bool)
    ensures
        r == (a@ == b@),
{
    let r = a.unicode_len() == b.unicode_len() && starts_with(a, b);
    proof {
        assert(a@.subrange(0, a@.len() as int) =~= a@);
    }
    r
}

/// Some element of `list` holds the characters of `c`.
pub fn contains_text(list: &Vec<String>, c: &str) -> (r: bool)
    ensures
        r == views(list@).contains(c@),
{
    let mut i: usize = 0;
    while i < list.len()
        invariant
            i <= list.len(),
            forall|k: int| 0 <= k < i ==> list@[k]@ != c@,
        decreases list.len() - i,
    {
        if same_text(list[i].as_str(), c) {
            assert(views(list@)[i as int] == c@);
            return true;
        }
        i = i + 1;
    }
    assert forall|k: int| 0 <= k < views(list@).len() implies views(list@)[k] != c@ by {
        assert(views(list@)[k] == list@[k]@);
    }
    false
}

/// The text of bytes that are valid UTF-8, as `String::from_utf8` reads them.
pub uninterp spec fn utf8_text(b: Seq<u8>) -> Option<Seq<char>>;

/// Relies on `String::from_utf8`: `Some` exactly when the bytes are valid UTF-8.
#[verifier::external_body]
pub(crate) fn decode_utf8(b: Vec<u8>) -> (r: Option<String>)
    ensures
        r matches Some(t) ==> utf8_text(b@) == Some(t@),
        r is None ==> utf8_text(b@) is None,
{
    String::from_utf8(b).ok()
}

/// The text of bytes with each invalid sequence replaced, as
/// `String::from_utf8_lossy` reads them.
pub uninterp spec fn utf8_lossy_text(b: Seq<u8>) -> Seq<char>;

/// Relies on `String::from_utf8_lossy`: the text of the bytes, with U+FFFD for
/// each invalid sequence.
#[verifier::external_body]
pub(crate) fn decode_utf8_lossy(b: &Vec<u8>) -> (r: String)
    ensures
        r@ == utf8_lossy_text(b@),
{
    String::from_utf8_lossy(b).into_owned()
}

} // verus!
