//! Character-level helpers on strings: decimal rendering, path joining,
//! trimming, splitting, comparing and integer parsing.
use vstd::prelude::*;
use vstd::string::*;

verus! {

/// The character of a decimal digit `d < 10`.
pub open spec fn digit_char(d: nat) -> char {
    if d == 0 { '0' }
    else if d == 1 { '1' }
    else if d == 2 { '2' }
    else if d == 3 { '3' }
    else if d == 4 { '4' }
    else if d == 5 { '5' }
    else if d == 6 { '6' }
    else if d == 7 { '7' }
    else if d == 8 { '8' }
    else { '9' }
}

/// The decimal representation of `n`, without sign or leading zeros.
pub open spec fn decimal(n: nat) -> Seq<char>
    decreases n,
{
    if n < 10 {
        seq![digit_char(n)]
    } else {
        decimal(n / 10).push(digit_char(n % 10))
    }
}

fn digit_str(d: u64) -> (r: &'static str)
    requires
        d < 10,
    ensures
        r@ == seq![digit_char(d as nat)],
{
    if d == 0 {
        proof { reveal_strlit("0"); }
        "0"
    } else if d == 1 {
        proof { reveal_strlit("1"); }
        "1"
    } else if d == 2 {
        proof { reveal_strlit("2"); }
        "2"
    } else if d == 3 {
        proof { reveal_strlit("3"); }
        "3"
    } else if d == 4 {
        proof { reveal_strlit("4"); }
        "4"
    } else if d == 5 {
        proof { reveal_strlit("5"); }
        "5"
    } else if d == 6 {
        proof { reveal_strlit("6"); }
        "6"
    } else if d == 7 {
        proof { reveal_strlit("7"); }
        "7"
    } else if d == 8 {
        proof { reveal_strlit("8"); }
        "8"
    } else {
        proof { reveal_strlit("9"); }
        "9"
    }
}

/// Renders `n` in decimal, as `n.to_string()` does.
pub fn u64_to_decimal(n: u64) -> (r: String)
    ensures
        r@ == decimal(n as nat),
    decreases n,
{
    if n < 10 {
        digit_str(n).to_owned()
    } else {
        let mut s = u64_to_decimal(n / 10);
        s.append(digit_str(n % 10));
        s
    }
}


/// `s` with every trailing `c` removed, as `str::trim_end_matches(c)` does.
pub open spec fn trim_end_char(s: Seq<char>, c: char) -> Seq<char>
    decreases s.len(),
{
    if s.len() > 0 && s.last() == c {
        trim_end_char(s.drop_last(), c)
    } else {
        s
    }
}

/// Removes every trailing `c` from `s`.
pub fn trim_end_char_str(s: &str, c: char) -> (r: &str)
    ensures
        r@ == trim_end_char(s@, c),
{
    let n = s.unicode_len();
    let mut k: usize = n;
    assert(s@.subrange(0, n as int) =~= s@);
    while k > 0 && s.get_char(k - 1) == c
        invariant
            n == s@.len(),
            k <= n,
            trim_end_char(s@.subrange(0, k as int), c) == trim_end_char(s@, c),
        decreases k,
    {
        assert(s@.subrange(0, k as int).drop_last() =~= s@.subrange(0, k - 1));
        k = k - 1;
    }
    assert(s@.subrange(0, n as int) =~= s@);
    s.substring_char(0, k)
}

/// Trimming twice trims no more than trimming once.
pub proof fn lemma_trim_end_idempotent(s: Seq<char>, c: char)
    ensures
        trim_end_char(trim_end_char(s, c), c) == trim_end_char(s, c),
    decreases s.len(),
{
    if s.len() > 0 && s.last() == c {
        lemma_trim_end_idempotent(s.drop_last(), c);
    }
}

/// A trimmed text keeps no trailing `c`.
pub proof fn lemma_trim_end_no_trailing(s: Seq<char>, c: char)
    ensures
        trim_end_char(s, c).len() == 0 || trim_end_char(s, c).last() != c,
    decreases s.len(),
{
    if s.len() > 0 && s.last() == c {
        lemma_trim_end_no_trailing(s.drop_last(), c);
    }
}

/// The path that `PathBuf::push` makes of `base` and `comp` on Unix: an
/// absolute `comp` replaces `base`; otherwise a `/` goes between them unless
/// `base` is empty or already ends with one.
pub open spec fn join_path(base: Seq<char>, comp: Seq<char>) -> Seq<char> {
    if comp.len() > 0 && comp[0] == '/' {
        comp
    } else if base.len() == 0 {
        comp
    } else if base.last() == '/' {
        base + comp
    } else {
        base + seq!['/'] + comp
    }
}

/// Joins two path parts as `PathBuf::push` does on Unix.
pub fn path_join(base: &str, comp: &str) -> (r: String)
    ensures
        r@ == join_path(base@, comp@),
{
    let nb = base.unicode_len();
    let nc = comp.unicode_len();
    if nc > 0 && comp.get_char(0) == '/' {
        comp.to_owned()
    } else if nb == 0 {
        comp.to_owned()
    } else if base.get_char(nb - 1) == '/' {
        let mut r = base.to_owned();
        r.append(comp);
        r
    } else {
        let mut r = base.to_owned();
        let sep = "/";
        proof { reveal_strlit("/"); }
        r.append(sep);
        r.append(comp);
        r
    }
}

/// Concatenation of two strings.
pub fn concat(a: &str, b: &str) -> (r: String)
    ensures
        r@ == a@ + b@,
{
    let mut r = a.to_owned();
    r.append(b);
    r
}

/// Whether two strings hold the same characters.
pub fn str_eq(a: &str, b: &str) -> (r: bool)
    ensures
        r == (a@ == b@),
{
    a.to_owned() == b.to_owned()
}

/// The pieces of `s` between occurrences of `c`, as `str::split(c)` yields
/// them: `k` occurrences give `k + 1` pieces, some of which may be empty.
pub open spec fn split_char(s: Seq<char>, c: char) -> Seq<Seq<char>>
    decreases s.len(),
{
    if s.len() == 0 {
        seq![Seq::<char>::empty()]
    } else {
        let rest = split_char(s.drop_last(), c);
        if s.last() == c {
            rest.push(Seq::<char>::empty())
        } else {
            rest.update(rest.len() - 1, rest.last().push(s.last()))
        }
    }
}

/// The pieces joined back together with `c` between each two of them.
pub open spec fn join_char(parts: Seq<Seq<char>>, c: char) -> Seq<char>
    decreases parts.len(),
{
    if parts.len() == 0 {
        Seq::<char>::empty()
    } else if parts.len() == 1 {
        parts[0]
    } else {
        join_char(parts.drop_last(), c) + seq![c] + parts.last()
    }
}

/// The views of a vector of strings.
pub open spec fn string_views(v: Seq<String>) -> Seq<Seq<char>> {
    v.map_values(|x: String| x@)
}

/// `split_char` always yields at least one piece.
pub proof fn lemma_split_nonempty(s: Seq<char>, c: char)
    ensures
        split_char(s, c).len() >= 1,
    decreases s.len(),
{
    if s.len() > 0 {
        lemma_split_nonempty(s.drop_last(), c);
    }
}

/// Splitting `s` at `c` and joining the pieces with `c` gives back `s`.
pub proof fn lemma_join_split(s: Seq<char>, c: char)
    ensures
        join_char(split_char(s, c), c) == s,
    decreases s.len(),
{
    if s.len() > 0 {
        let t = s.drop_last();
        lemma_join_split(t, c);
        lemma_split_nonempty(t, c);
        let p = split_char(t, c);
        if s.last() == c {
            let q = p.push(Seq::<char>::empty());
            assert(q.drop_last() =~= p);
            assert(join_char(q, c) =~= s);
        } else {
            let q = p.update(p.len() - 1, p.last().push(s.last()));
            assert(s =~= t.push(s.last()));
            if p.len() == 1 {
                assert(q[0] =~= p[0].push(s.last()));
                assert(join_char(q, c) =~= s);
            } else {
                assert(q.drop_last() =~= p.drop_last());
                assert(join_char(q, c) =~= s);
            }
        }
    }
}

/// No piece of a split holds the separator, so that together with
/// `lemma_join_split` the pieces are exactly the runs between separators.
pub proof fn lemma_split_pieces_lack_separator(s: Seq<char>, c: char)
    ensures
        forall|i: int| 0 <= i < split_char(s, c).len() ==> !(#[trigger] split_char(s, c)[i]).contains(c),
    decreases s.len(),
{
    if s.len() > 0 {
        let t = s.drop_last();
        lemma_split_pieces_lack_separator(t, c);
        lemma_split_nonempty(t, c);
        let p = split_char(t, c);
        if s.last() != c {
            let q = p.update(p.len() - 1, p.last().push(s.last()));
            assert forall|i: int| 0 <= i < q.len() implies !(#[trigger] q[i]).contains(c) by {
                if i == p.len() - 1 {
                    assert forall|j: int| 0 <= j < q[i].len() implies q[i][j] != c by {
                        if j < p.last().len() {
                            assert(q[i][j] == p.last()[j]);
                        }
                    }
                }
            }
        } else {
            let q = p.push(Seq::<char>::empty());
            assert forall|i: int| 0 <= i < q.len() implies !(#[trigger] q[i]).contains(c) by {
                if i < p.len() {
                    assert(q[i] == p[i]);
                }
            }
        }
    }
}

/// Splits `s` at every `c`, as `s.split(c).map(str::to_string).collect()` does.
pub fn split_char_str(s: &str, c: char) -> (r: Vec<String>)
    ensures
        string_views(r@) == split_char(s@, c),
{
    let n = s.unicode_len();
    let mut pieces: Vec<String> = Vec::new();
    let mut start: usize = 0;
    let mut i: usize = 0;
    assert(string_views(pieces@) =~= Seq::<Seq<char>>::empty());
    assert(s@.subrange(0, 0) =~= Seq::<char>::empty());
    assert(string_views(pieces@).push(s@.subrange(0, 0)) =~= split_char(s@.subrange(0, 0), c));
    while i < n
        invariant
            n == s@.len(),
            start <= i <= n,
            string_views(pieces@).push(s@.subrange(start as int, i as int)) == split_char(s@.subrange(0, i as int), c),
        decreases n - i,
    {
        let ghost before = s@.subrange(0, i as int);
        let ghost after = s@.subrange(0, i + 1);
        assert(after.drop_last() =~= before);
        if s.get_char(i) == c {
            let ghost prev = string_views(pieces@);
            let piece = s.substring_char(start, i).to_owned();
            pieces.push(piece);
            assert(string_views(pieces@) =~= prev.push(s@.subrange(start as int, i as int)));
            start = i + 1;
            assert(s@.subrange(start as int, i + 1) =~= Seq::<char>::empty());
        } else {
            assert(s@.subrange(start as int, i + 1) =~= s@.subrange(start as int, i as int).push(s@[i as int]));
        }
        i = i + 1;
    }
    let last = s.substring_char(start, n).to_owned();
    pieces.push(last);
    assert(s@.subrange(0, n as int) =~= s@);
    pieces
}


/// Why a string is not a `u64`, as the kinds of `std::num::ParseIntError`.
#[derive(Clone, Copy, Debug, PartialEq, Eq)]
pub enum IntErrorKind {
    /// The string is empty.
    Empty,
    /// A character is not a decimal digit.
    InvalidDigit,
    /// The value does not fit in a `u64`.
    PosOverflow,
}

/// Whether `c` is one of `0` to `9`.
pub open spec fn is_digit(c: char) -> bool {
    '0' <= c && c <= '9'
}

/// The value of a decimal digit character.
pub open spec fn digit_value(c: char) -> nat {
    (c as nat - '0' as nat) as nat
}

/// Reads the digits of `d` from left to right onto `acc`, stopping at the
/// first character that is no digit or that makes the value overflow.
pub open spec fn read_digits(d: Seq<char>, acc: nat) -> Result<u64, IntErrorKind>
    decreases d.len(),
{
    if d.len() == 0 {
        if acc <= u64::MAX { Ok(acc as u64) } else { Err(IntErrorKind::PosOverflow) }
    } else if !is_digit(d[0]) {
        Err(IntErrorKind::InvalidDigit)
    } else if acc * 10 + digit_value(d[0]) > u64::MAX {
        Err(IntErrorKind::PosOverflow)
    } else {
        read_digits(d.skip(1), acc * 10 + digit_value(d[0]))
    }
}

/// What `s.parse::<u64>()` gives: an optional `+` followed by decimal digits.
pub open spec fn parse_u64_spec(s: Seq<char>) -> Result<u64, IntErrorKind> {
    if s.len() == 0 {
        Err(IntErrorKind::Empty)
    } else if s[0] == '+' && s.len() == 1 {
        Err(IntErrorKind::InvalidDigit)
    } else if s[0] == '+' {
        read_digits(s.skip(1), 0)
    } else {
        read_digits(s, 0)
    }
}

/// The value of the digits of `d` read left to right onto `acc`, unbounded.
spec fn digits_value(d: Seq<char>, acc: nat) -> nat
    decreases d.len(),
{
    if d.len() == 0 {
        acc
    } else {
        digits_value(d.skip(1), acc * 10 + digit_value(d[0]))
    }
}

proof fn lemma_digits_value_grows(d: Seq<char>, acc: nat)
    ensures
        digits_value(d, acc) >= acc,
    decreases d.len(),
{
    if d.len() > 0 {
        lemma_digits_value_grows(d.skip(1), acc * 10 + digit_value(d[0]));
    }
}

proof fn lemma_digits_value_push(d: Seq<char>, ch: char, acc: nat)
    ensures
        digits_value(d.push(ch), acc) == digits_value(d, acc) * 10 + digit_value(ch),
    decreases d.len(),
{
    reveal_with_fuel(digits_value, 2);
    assert(d.push(ch)[0] == if d.len() == 0 { ch } else { d[0] });
    if d.len() == 0 {
        assert(d.push(ch).skip(1) =~= Seq::<char>::empty());
    } else {
        assert(d.push(ch).skip(1) =~= d.skip(1).push(ch));
        lemma_digits_value_push(d.skip(1), ch, acc * 10 + digit_value(d[0]));
    }
}

proof fn lemma_read_digits_value(d: Seq<char>, acc: nat)
    requires
        forall|i: int| 0 <= i < d.len() ==> is_digit(#[trigger] d[i]),
        digits_value(d, acc) <= u64::MAX,
    ensures
        read_digits(d, acc) == Ok::<u64, IntErrorKind>(digits_value(d, acc) as u64),
    decreases d.len(),
{
    if d.len() > 0 {
        assert(is_digit(d[0]));
        let next = acc * 10 + digit_value(d[0]);
        lemma_digits_value_grows(d.skip(1), next);
        assert forall|i: int| 0 <= i < d.skip(1).len() implies is_digit(#[trigger] d.skip(1)[i]) by {
            assert(d.skip(1)[i] == d[i + 1]);
        }
        lemma_read_digits_value(d.skip(1), next);
    }
}

proof fn lemma_decimal_value(n: nat)
    ensures
        forall|i: int| 0 <= i < decimal(n).len() ==> is_digit(#[trigger] decimal(n)[i]),
        digits_value(decimal(n), 0) == n,
        decimal(n).len() >= 1,
    decreases n,
{
    if n < 10 {
        reveal_with_fuel(digits_value, 2);
        let d = decimal(n);
        assert(d.skip(1) =~= Seq::<char>::empty());
        assert(digit_value(digit_char(n)) == n);
    } else {
        lemma_decimal_value(n / 10);
        let front = decimal(n / 10);
        let last = digit_char(n % 10);
        lemma_digits_value_push(front, last, 0);
        assert(digit_value(last) == n % 10);
        assert(decimal(n) == front.push(last));
        vstd::arithmetic::div_mod::lemma_fundamental_div_mod(n as int, 10);
        assert forall|i: int| 0 <= i < decimal(n).len() implies is_digit(#[trigger] decimal(n)[i]) by {
            if i < front.len() {
                assert(decimal(n)[i] == front[i]);
            }
        }
    }
}

/// Parsing reads back what decimal rendering writes: the decimal text of a
/// `u64`, with or without a leading `+`, parses to that number.
pub proof fn law_parse_reads_decimal(n: u64)
    ensures
        parse_u64_spec(decimal(n as nat)) == Ok::<u64, IntErrorKind>(n),
        parse_u64_spec(seq!['+'] + decimal(n as nat)) == Ok::<u64, IntErrorKind>(n),
{
    let d = decimal(n as nat);
    lemma_decimal_value(n as nat);
    lemma_read_digits_value(d, 0);
    assert(is_digit(d[0]));
    let p = seq!['+'] + d;
    assert(p.skip(1) =~= d);
}

/// Parses a decimal `u64`: an optional `+` and then only digits.
pub fn parse_u64(s: &str) -> (r: Result<u64, IntErrorKind>)
    ensures
        r == parse_u64_spec(s@),
{
    let n = s.unicode_len();
    if n == 0 {
        return Err(IntErrorKind::Empty);
    }
    let first = s.get_char(0);
    if first == '+' && n == 1 {
        return Err(IntErrorKind::InvalidDigit);
    }
    let mut i: usize = if first == '+' { 1 } else { 0 };
    let ghost d = if first == '+' { s@.skip(1) } else { s@ };
    assert(s@.skip(i as int) =~= d);
    assert(parse_u64_spec(s@) == read_digits(d, 0));
    let mut acc: u64 = 0;
    while i < n
        invariant
            n == s@.len(),
            i <= n,
            parse_u64_spec(s@) == read_digits(s@.skip(i as int), acc as nat),
        decreases n - i,
    {
        let ch = s.get_char(i);
        assert(s@.skip(i as int)[0] == ch);
        assert(s@.skip(i as int).skip(1) =~= s@.skip(i + 1));
        if !('0' <= ch && ch <= '9') {
            return Err(IntErrorKind::InvalidDigit);
        }
        let v = (ch as u32 - '0' as u32) as u64;
        assert(v == digit_value(ch));
        if acc > 1844674407370955161 || (acc == 1844674407370955161 && v > 5) {
            return Err(IntErrorKind::PosOverflow);
        }
        acc = acc * 10 + v;
        i = i + 1;
    }
    assert(s@.skip(n as int) =~= Seq::<char>::empty());
    Ok(acc)
}

} // verus!
