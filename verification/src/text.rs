//! Verified text machinery for the wire protocol: decimal numbers, field
//! trimming, comma splitting and joining, and plain string comparison, each
//! with a specification-level model.

use vstd::prelude::*;

verus! {

// ---------------------------------------------------------------------------
// Whitespace and trimming
// ---------------------------------------------------------------------------

/// The whitespace characters that trimming removes.
pub open spec fn is_wspace(c: char) -> bool {
    c == ' ' || c == '\t' || c == '\n' || c == '\r'
}

fn is_wspace_char(c: char) -> (r: bool)
    ensures
        r == is_wspace(c),
{
    c == ' ' || c == '\t' || c == '\n' || c == '\r'
}

/// `s` without its leading whitespace.
pub open spec fn ltrim(s: Seq<char>) -> Seq<char>
    decreases s.len(),
{
    if s.len() > 0 && is_wspace(s.first()) {
        ltrim(s.drop_first())
    } else {
        s
    }
}

/// `s` without its trailing whitespace.
pub open spec fn rtrim(s: Seq<char>) -> Seq<char>
    decreases s.len(),
{
    if s.len() > 0 && is_wspace(s.last()) {
        rtrim(s.drop_last())
    } else {
        s
    }
}

/// `s` without leading or trailing whitespace.
pub open spec fn spec_trim(s: Seq<char>) -> Seq<char> {
    ltrim(rtrim(s))
}

/// Trimming a string that carries no whitespace at either edge returns it
/// unchanged, whatever whitespace was appended after it.
pub proof fn lemma_trim_of_padded(s: Seq<char>, pad: Seq<char>)
    requires
        s.len() > 0 ==> !is_wspace(s.first()) && !is_wspace(s.last()),
        forall|i: int| 0 <= i < pad.len() ==> is_wspace(#[trigger] pad[i]),
    ensures
        spec_trim(s + pad) == s,
    decreases pad.len(),
{
    if pad.len() == 0 {
        assert(s + pad =~= s);
        if s.len() > 0 {
            assert(rtrim(s) == s);
            assert(ltrim(s) == s);
        }
    } else {
        assert((s + pad).len() > 0);
        assert((s + pad).last() == pad.last());
        assert((s + pad).drop_last() =~= s + pad.drop_last());
        lemma_trim_of_padded(s, pad.drop_last());
    }
}

/// Returns `s` with leading and trailing whitespace removed.
pub fn trim_str(s: &str) -> (r: &str)
    ensures
        r@ == spec_trim(s@),
{
    let n = s.unicode_len();
    let mut end: usize = n;
    proof {
        assert(s@.subrange(0, n as int) =~= s@);
    }
    while end > 0 && is_wspace_char(s.get_char(end - 1))
        invariant
            end <= n,
            n == s@.len(),
            rtrim(s@) == rtrim(s@.subrange(0, end as int)),
        decreases end,
    {
        proof {
            assert(s@.subrange(0, end as int).last() == s@[end - 1]);
            assert(s@.subrange(0, end as int).drop_last() =~= s@.subrange(0, end - 1));
        }
        end = end - 1;
    }
    proof {
        if end > 0 {
            assert(s@.subrange(0, end as int).last() == s@[end - 1]);
        } else {
            assert(s@.subrange(0, 0) =~= Seq::<char>::empty());
        }
        assert(rtrim(s@) == s@.subrange(0, end as int));
    }
    let mut start: usize = 0;
    while start < end && is_wspace_char(s.get_char(start))
        invariant
            start <= end <= n,
            n == s@.len(),
            rtrim(s@) == s@.subrange(0, end as int),
            spec_trim(s@) == ltrim(s@.subrange(start as int, end as int)),
        decreases end - start,
    {
        proof {
            assert(s@.subrange(start as int, end as int).first() == s@[start as int]);
            assert(s@.subrange(start as int, end as int).drop_first() =~= s@.subrange(
                start + 1,
                end as int,
            ));
        }
        start = start + 1;
    }
    proof {
        if start < end {
            assert(s@.subrange(start as int, end as int).first() == s@[start as int]);
        } else {
            assert(s@.subrange(start as int, end as int) =~= Seq::<char>::empty());
        }
        assert(spec_trim(s@) == s@.subrange(start as int, end as int));
    }
    s.substring_char(start, end)
}

// ---------------------------------------------------------------------------
// Decimal digits
// ---------------------------------------------------------------------------

/// Whether `c` is a decimal digit.
pub open spec fn is_digit(c: char) -> bool {
    c == '0' || c == '1' || c == '2' || c == '3' || c == '4' || c == '5' || c == '6' || c == '7'
        || c == '8' || c == '9'
}

/// Numeric value of a digit character (0 for anything else).
pub open spec fn digit_val(c: char) -> nat {
    if c == '1' {
        1
    } else if c == '2' {
        2
    } else if c == '3' {
        3
    } else if c == '4' {
        4
    } else if c == '5' {
        5
    } else if c == '6' {
        6
    } else if c == '7' {
        7
    } else if c == '8' {
        8
    } else if c == '9' {
        9
    } else {
        0
    }
}

/// The digit character for a value below ten ('9' for anything else).
pub open spec fn digit_char(d: nat) -> char {
    if d == 0 {
        '0'
    } else if d == 1 {
        '1'
    } else if d == 2 {
        '2'
    } else if d == 3 {
        '3'
    } else if d == 4 {
        '4'
    } else if d == 5 {
        '5'
    } else if d == 6 {
        '6'
    } else if d == 7 {
        '7'
    } else if d == 8 {
        '8'
    } else {
        '9'
    }
}

/// Whether every character of `s` is a decimal digit.
pub open spec fn all_digits(s: Seq<char>) -> bool {
    forall|i: int| 0 <= i < s.len() ==> is_digit(#[trigger] s[i])
}

/// The value of a decimal digit string, most significant digit first.
pub open spec fn dec_value(s: Seq<char>) -> nat
    decreases s.len(),
{
    if s.len() == 0 {
        0
    } else {
        dec_value(s.drop_last()) * 10 + digit_val(s.last())
    }
}

/// The decimal digit string of `n`, without leading zeros ("0" for zero).
pub open spec fn dec_digits(n: nat) -> Seq<char>
    decreases n,
{
    if n < 10 {
        seq![digit_char(n)]
    } else {
        dec_digits(n / 10).push(digit_char(n % 10))
    }
}

/// `s` left-padded with zeros up to width `w` (unchanged if already as wide).
pub open spec fn zero_pad(s: Seq<char>, w: nat) -> Seq<char> {
    if s.len() >= w {
        s
    } else {
        Seq::new((w - s.len()) as nat, |i: int| '0') + s
    }
}

fn digit_to_str(d: u64) -> (r: &'static str)
    requires
        d < 10,
    ensures
        r@ =~= seq![digit_char(d as nat)],
{
    proof {
        reveal_strlit("0");
        reveal_strlit("1");
        reveal_strlit("2");
        reveal_strlit("3");
        reveal_strlit("4");
        reveal_strlit("5");
        reveal_strlit("6");
        reveal_strlit("7");
        reveal_strlit("8");
        reveal_strlit("9");
    }
    if d == 0 {
        "0"
    } else if d == 1 {
        "1"
    } else if d == 2 {
        "2"
    } else if d == 3 {
        "3"
    } else if d == 4 {
        "4"
    } else if d == 5 {
        "5"
    } else if d == 6 {
        "6"
    } else if d == 7 {
        "7"
    } else if d == 8 {
        "8"
    } else {
        "9"
    }
}

fn char_digit_val(c: char) -> (r: Option<u64>)
    ensures
        r is Some <==> is_digit(c),
        r is Some ==> r->Some_0 == digit_val(c),
{
    if c == '0' {
        Some(0)
    } else if c == '1' {
        Some(1)
    } else if c == '2' {
        Some(2)
    } else if c == '3' {
        Some(3)
    } else if c == '4' {
        Some(4)
    } else if c == '5' {
        Some(5)
    } else if c == '6' {
        Some(6)
    } else if c == '7' {
        Some(7)
    } else if c == '8' {
        Some(8)
    } else if c == '9' {
        Some(9)
    } else {
        None
    }
}

/// The decimal representation of `n`.
pub fn format_u64(n: u64) -> (r: String)
    ensures
        r@ == dec_digits(n as nat),
    decreases n,
{
    if n < 10 {
        let mut r = String::new();
        r.append(digit_to_str(n));
        proof {
            assert(r@ =~= dec_digits(n as nat));
        }
        r
    } else {
        let mut r = format_u64(n / 10);
        r.append(digit_to_str(n % 10));
        proof {
            assert(n as nat / 10 == (n / 10) as nat);
            assert(n as nat % 10 == (n % 10) as nat);
            assert(r@ =~= dec_digits(n as nat));
        }
        r
    }
}

/// The decimal representation of `n`, zero-padded on the left to width `w`.
pub fn format_u64_padded(n: u64, w: usize) -> (r: String)
    ensures
        r@ == zero_pad(dec_digits(n as nat), w as nat),
{
    let d = format_u64(n);
    let len = d.as_str().unicode_len();
    if len >= w {
        return d;
    }
    proof {
        reveal_strlit("0");
    }
    let mut pad = String::new();
    let mut k: usize = len;
    while k < w
        invariant
            len <= k <= w,
            pad@ =~= Seq::new((k - len) as nat, |i: int| '0'),
        decreases w - k,
    {
        pad.append("0");
        proof {
            reveal_strlit("0");
            assert(pad@ =~= Seq::new((k + 1 - len) as nat, |i: int| '0'));
        }
        k = k + 1;
    }
    let r = pad.concat(d.as_str());
    proof {
        assert(r@ =~= zero_pad(dec_digits(n as nat), w as nat));
    }
    r
}

/// The value of any prefix of a digit string is at most the whole string's.
proof fn lemma_dec_value_prefix(s: Seq<char>, i: int)
    requires
        0 <= i <= s.len(),
    ensures
        dec_value(s.subrange(0, i)) <= dec_value(s),
    decreases s.len() - i,
{
    if i == s.len() {
        assert(s.subrange(0, i) =~= s);
    } else {
        assert(s.subrange(0, i + 1).drop_last() =~= s.subrange(0, i));
        assert(s.subrange(0, i + 1).last() == s[i]);
        assert(dec_value(s.subrange(0, i + 1)) == dec_value(s.subrange(0, i)) * 10 + digit_val(
            s[i],
        ));
        lemma_dec_value_prefix(s, i + 1);
    }
}

/// Parse a string of decimal digits as a `usize`; `None` when the string is
/// empty, holds a non-digit, or names a value above `usize::MAX`.
pub fn parse_usize(s: &str) -> (r: Option<usize>)
    ensures
        r is Some <==> (s@.len() > 0 && all_digits(s@) && dec_value(s@) <= usize::MAX),
        r is Some ==> r->Some_0 == dec_value(s@),
{
    let n = s.unicode_len();
    if n == 0 {
        return None;
    }
    let mut acc: usize = 0;
    let mut i: usize = 0;
    while i < n
        invariant
            i <= n,
            n == s@.len(),
            all_digits(s@.subrange(0, i as int)),
            acc == dec_value(s@.subrange(0, i as int)),
        decreases n - i,
    {
        let c = s.get_char(i);
        proof {
            assert(s@.subrange(0, i + 1).drop_last() =~= s@.subrange(0, i as int));
            assert(s@.subrange(0, i + 1).last() == s@[i as int]);
        }
        match char_digit_val(c) {
            None => {
                proof {
                    assert(!is_digit(s@[i as int]));
                }
                return None;
            },
            Some(d) => {
                let d = d as usize;
                if acc > (usize::MAX - d) / 10 {
                    proof {
                        vstd::arithmetic::div_mod::lemma_fundamental_div_mod(
                            (usize::MAX - d) as int,
                            10,
                        );
                        assert(dec_value(s@.subrange(0, i + 1)) > usize::MAX);
                        lemma_dec_value_prefix(s@, i + 1);
                    }
                    return None;
                }
                proof {
                    vstd::arithmetic::div_mod::lemma_fundamental_div_mod(
                        (usize::MAX - d) as int,
                        10,
                    );
                }
                acc = acc * 10 + d;
                i = i + 1;
            },
        }
    }
    proof {
        assert(s@.subrange(0, n as int) =~= s@);
    }
    Some(acc)
}

/// Parse a wire boolean: a decimal integer where any nonzero value is true.
pub fn parse_bool(s: &str) -> (r: Option<bool>)
    ensures
        r is Some <==> (s@.len() > 0 && all_digits(s@) && dec_value(s@) <= usize::MAX),
        r is Some ==> r->Some_0 == (dec_value(s@) != 0),
{
    match parse_usize(s) {
        Some(v) => Some(v != 0),
        None => None,
    }
}

// ---------------------------------------------------------------------------
// Decimal round-trip lemmas
// ---------------------------------------------------------------------------

/// The digit string of `n` is nonempty, all digits, and names `n`.
pub proof fn lemma_dec_digits_value(n: nat)
    ensures
        dec_digits(n).len() >= 1,
        all_digits(dec_digits(n)),
        dec_value(dec_digits(n)) == n,
    decreases n,
{
    if n < 10 {
        let s = dec_digits(n);
        assert(s =~= seq![digit_char(n)]);
        assert(s.len() == 1);
        assert(s.last() == digit_char(n));
        assert(s.drop_last() =~= Seq::<char>::empty());
        assert(dec_value(Seq::<char>::empty()) == 0);
        assert(dec_value(s) == dec_value(s.drop_last()) * 10 + digit_val(s.last()));
        assert(digit_val(digit_char(n)) == n);
    } else {
        lemma_dec_digits_value(n / 10);
        assert(dec_digits(n).drop_last() =~= dec_digits(n / 10));
        assert(dec_value(dec_digits(n)) == (n / 10) * 10 + digit_val(digit_char(n % 10)));
        vstd::arithmetic::div_mod::lemma_fundamental_div_mod(n as int, 10);
    }
}

proof fn lemma_dec_value_all_zeros(z: nat)
    ensures
        dec_value(Seq::new(z, |i: int| '0')) == 0,
    decreases z,
{
    if z > 0 {
        assert(Seq::new(z, |i: int| '0').drop_last() =~= Seq::new((z - 1) as nat, |i: int| '0'));
        lemma_dec_value_all_zeros((z - 1) as nat);
    }
}

proof fn lemma_dec_value_zeros_prefix(z: nat, s: Seq<char>)
    ensures
        dec_value(Seq::new(z, |i: int| '0') + s) == dec_value(s),
    decreases s.len(),
{
    if s.len() == 0 {
        assert(Seq::new(z, |i: int| '0') + s =~= Seq::new(z, |i: int| '0'));
        lemma_dec_value_all_zeros(z);
    } else {
        let zs = Seq::new(z, |i: int| '0');
        assert((zs + s).drop_last() =~= zs + s.drop_last());
        assert((zs + s).last() == s.last());
        lemma_dec_value_zeros_prefix(z, s.drop_last());
    }
}

/// Zero-padding keeps a digit string all digits and keeps its value.
pub proof fn lemma_zero_pad_value(s: Seq<char>, w: nat)
    requires
        all_digits(s),
    ensures
        all_digits(zero_pad(s, w)),
        dec_value(zero_pad(s, w)) == dec_value(s),
        zero_pad(s, w).len() >= s.len(),
{
    if s.len() < w {
        lemma_dec_value_zeros_prefix((w - s.len()) as nat, s);
        assert forall|i: int| 0 <= i < zero_pad(s, w).len() implies is_digit(
            #[trigger] zero_pad(s, w)[i],
        ) by {
            if i >= w - s.len() {
                assert(zero_pad(s, w)[i] == s[i - (w - s.len())]);
            }
        }
    }
}

// ---------------------------------------------------------------------------
// Comma-separated fields
// ---------------------------------------------------------------------------

/// Whether `s` holds no comma.
pub open spec fn no_comma(s: Seq<char>) -> bool {
    forall|i: int| 0 <= i < s.len() ==> #[trigger] s[i] != ','
}

/// A string of digits holds no comma.
pub proof fn lemma_digits_no_comma(s: Seq<char>)
    requires
        all_digits(s),
    ensures
        no_comma(s),
{
    assert forall|i: int| 0 <= i < s.len() implies #[trigger] s[i] != ',' by {
        assert(is_digit(s[i]));
    }
}

/// `s` split at every comma: one more segment than commas, in order.
pub open spec fn spec_split(s: Seq<char>) -> Seq<Seq<char>>
    decreases s.len(),
{
    if s.len() == 0 {
        seq![Seq::<char>::empty()]
    } else if s.last() == ',' {
        spec_split(s.drop_last()).push(Seq::<char>::empty())
    } else {
        let parts = spec_split(s.drop_last());
        parts.update(parts.len() - 1, parts.last().push(s.last()))
    }
}

/// A split always yields at least one segment.
pub proof fn lemma_split_nonempty(s: Seq<char>)
    ensures
        spec_split(s).len() >= 1,
    decreases s.len(),
{
    if s.len() > 0 {
        lemma_split_nonempty(s.drop_last());
    }
}

/// Segment `i` of `s` split at commas, or empty when there is no such segment.
pub open spec fn spec_field(s: Seq<char>, i: int) -> Seq<char> {
    if 0 <= i < spec_split(s).len() {
        spec_split(s)[i]
    } else {
        Seq::<char>::empty()
    }
}

/// Appending a comma-free `t` extends the last segment of the split by `t`.
proof fn lemma_split_append_no_comma(s: Seq<char>, t: Seq<char>)
    requires
        no_comma(t),
    ensures
        spec_split(s + t) == spec_split(s).update(
            spec_split(s).len() - 1,
            spec_split(s).last() + t,
        ),
    decreases t.len(),
{
    lemma_split_nonempty(s);
    if t.len() == 0 {
        assert(s + t =~= s);
        assert(spec_split(s).last() + t =~= spec_split(s).last());
        assert(spec_split(s).update(spec_split(s).len() - 1, spec_split(s).last()) =~= spec_split(
            s,
        ));
    } else {
        lemma_split_append_no_comma(s, t.drop_last());
        assert((s + t).drop_last() =~= s + t.drop_last());
        assert((s + t).last() == t.last());
        assert(t.last() != ',');
        let p = spec_split(s);
        let q = spec_split(s + t.drop_last());
        assert(q == p.update(p.len() - 1, p.last() + t.drop_last()));
        assert(q.len() == p.len());
        assert(q.last() == p.last() + t.drop_last());
        assert(spec_split(s + t) == q.update(q.len() - 1, q.last().push(t.last())));
        assert(q.last().push(t.last()) =~= p.last() + t);
        assert(q.update(q.len() - 1, p.last() + t) =~= p.update(p.len() - 1, p.last() + t));
    }
}

/// Joined with commas, most significant segment first.
pub open spec fn join_commas(fields: Seq<Seq<char>>) -> Seq<char>
    decreases fields.len(),
{
    if fields.len() == 0 {
        Seq::<char>::empty()
    } else if fields.len() == 1 {
        fields[0]
    } else {
        join_commas(fields.drop_last()) + seq![','] + fields.last()
    }
}

/// Joining after prepending a field prepends the field and a comma.
pub proof fn lemma_join_cons(x: Seq<char>, fields: Seq<Seq<char>>)
    requires
        fields.len() >= 1,
    ensures
        join_commas(seq![x] + fields) == x + seq![','] + join_commas(fields),
    decreases fields.len(),
{
    let g = seq![x] + fields;
    if fields.len() == 1 {
        assert(g.len() == 2);
        assert(g.drop_last() =~= seq![x]);
        assert(join_commas(seq![x]) == x);
        assert(g.last() == fields[0]);
        assert(join_commas(fields) == fields[0]);
        assert(join_commas(g) == x + seq![','] + fields[0]);
    } else {
        assert(g.drop_last() =~= seq![x] + fields.drop_last());
        lemma_join_cons(x, fields.drop_last());
        assert(g.last() == fields.last());
        assert(join_commas(g) == (x + seq![','] + join_commas(fields.drop_last())) + seq![',']
            + fields.last());
        assert((x + seq![','] + join_commas(fields.drop_last())) + seq![','] + fields.last() =~= x
            + seq![','] + (join_commas(fields.drop_last()) + seq![','] + fields.last()));
    }
}

/// Splitting a comma-joined sequence of comma-free fields gives the fields.
pub proof fn lemma_split_join(fields: Seq<Seq<char>>)
    requires
        fields.len() >= 1,
        forall|i: int| 0 <= i < fields.len() ==> no_comma(#[trigger] fields[i]),
    ensures
        spec_split(join_commas(fields)) == fields,
    decreases fields.len(),
{
    if fields.len() == 1 {
        let f = fields[0];
        assert(Seq::<char>::empty() + f =~= f);
        lemma_split_append_no_comma(Seq::<char>::empty(), f);
        assert(spec_split(Seq::<char>::empty()) =~= seq![Seq::<char>::empty()]);
        assert(spec_split(f) == seq![Seq::<char>::empty()].update(0, Seq::<char>::empty() + f));
        assert(Seq::<char>::empty() + f =~= f);
        assert(seq![Seq::<char>::empty()].update(0, f) =~= seq![f]);
        assert(fields =~= seq![f]);
    } else {
        let init = fields.drop_last();
        let last = fields.last();
        lemma_split_join(init);
        let j = join_commas(init);
        assert(join_commas(fields) == j + seq![','] + last);
        assert((j + seq![',']).last() == ',');
        assert((j + seq![',']).drop_last() =~= j);
        assert(spec_split(j + seq![',']) == spec_split(j).push(Seq::<char>::empty()));
        lemma_split_append_no_comma(j + seq![','], last);
        let q = spec_split(j + seq![',']);
        assert(q == init.push(Seq::<char>::empty()));
        assert(q.len() == init.len() + 1);
        assert(q.last() =~= Seq::<char>::empty());
        assert(Seq::<char>::empty() + last =~= last);
        assert(spec_split(j + seq![','] + last) == q.update(q.len() - 1, last));
        assert(init.push(Seq::<char>::empty()).update(init.len() as int, last) =~= fields);
    }
}

/// Split `s` at every comma.
pub fn split_commas(s: &str) -> (parts: Vec<String>)
    ensures
        parts@.map_values(|p: String| p@) == spec_split(s@),
{
    let n = s.unicode_len();
    let mut parts: Vec<String> = Vec::new();
    let mut start: usize = 0;
    let mut i: usize = 0;
    proof {
        assert(s@.subrange(0, 0) =~= Seq::<char>::empty());
        assert(parts@.map_values(|p: String| p@).push(s@.subrange(0, 0)) =~= spec_split(
            s@.subrange(0, 0),
        ));
    }
    while i < n
        invariant
            start <= i <= n,
            n == s@.len(),
            spec_split(s@.subrange(0, i as int)) == parts@.map_values(|p: String| p@).push(
                s@.subrange(start as int, i as int),
            ),
        decreases n - i,
    {
        let ghost prev_parts = parts@.map_values(|p: String| p@);
        let ghost cur = s@.subrange(start as int, i as int);
        proof {
            assert(s@.subrange(0, i + 1).drop_last() =~= s@.subrange(0, i as int));
            assert(s@.subrange(0, i + 1).last() == s@[i as int]);
        }
        let c = s.get_char(i);
        if c == ',' {
            let piece = s.substring_char(start, i).to_owned();
            parts.push(piece);
            start = i + 1;
            proof {
                assert(spec_split(s@.subrange(0, i + 1)) == spec_split(
                    s@.subrange(0, i as int),
                ).push(Seq::<char>::empty()));
                assert(parts@.map_values(|p: String| p@) =~= prev_parts.push(cur));
                assert(s@.subrange(start as int, i + 1) =~= Seq::<char>::empty());
                assert(spec_split(s@.subrange(0, i + 1)) =~= parts@.map_values(
                    |p: String| p@,
                ).push(s@.subrange(start as int, i + 1)));
            }
        } else {
            proof {
                let p = spec_split(s@.subrange(0, i as int));
                assert(p == prev_parts.push(cur));
                assert(p.len() == prev_parts.len() + 1);
                assert(p.last() == cur);
                assert(spec_split(s@.subrange(0, i + 1)) == p.update(
                    p.len() - 1,
                    cur.push(s@[i as int]),
                ));
                assert(cur.push(s@[i as int]) =~= s@.subrange(start as int, i + 1));
                assert(p.update(p.len() - 1, s@.subrange(start as int, i + 1)) =~= prev_parts.push(
                    s@.subrange(start as int, i + 1),
                ));
            }
        }
        i = i + 1;
    }
    let piece = s.substring_char(start, n).to_owned();
    let ghost prev_parts = parts@.map_values(|p: String| p@);
    parts.push(piece);
    proof {
        assert(s@.subrange(0, n as int) =~= s@);
        assert(parts@.map_values(|p: String| p@) =~= prev_parts.push(
            s@.subrange(start as int, n as int),
        ));
    }
    parts
}

// ---------------------------------------------------------------------------
// String comparison
// ---------------------------------------------------------------------------

/// Character-for-character equality of two string slices.
pub fn str_eq(a: &str, b: &str) -> (r: bool)
    ensures
        r == (a@ == b@),
{
    let an = a.unicode_len();
    let bn = b.unicode_len();
    if an != bn {
        return false;
    }
    let mut i: usize = 0;
    while i < an
        invariant
            i <= an,
            an == a@.len(),
            an == b@.len(),
            forall|j: int| 0 <= j < i ==> a@[j] == b@[j],
        decreases an - i,
    {
        if a.get_char(i) != b.get_char(i) {
            return false;
        }
        i = i + 1;
    }
    proof {
        assert(a@ =~= b@);
    }
    true
}

} // verus!
