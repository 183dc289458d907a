use vstd::prelude::*;

verus! {

/// Whether `c` is one of the ASCII decimal digits.
pub open spec fn is_digit(c: char) -> bool {
    '0' <= c && c <= '9'
}

/// Whether every character of `d` is a decimal digit.
pub open spec fn all_digits(d: Seq<char>) -> bool {
    forall|i: int| 0 <= i < d.len() ==> is_digit(#[trigger] d[i])
}

/// The number that a run of decimal digits denotes, most significant first.
pub open spec fn digits_value(d: Seq<char>) -> int
    decreases d.len(),
{
    if d.len() == 0 {
        0
    } else {
        digits_value(d.drop_last()) * 10 + (d.last() as int - '0' as int)
    }
}

/// The integer written by `s` in the form that `FromStr` accepts for the
/// signed integer types: an optional `+` or `-`, then one or more decimal
/// digits, and nothing else.
pub open spec fn decimal_literal(s: Seq<char>) -> Option<int> {
    if s.len() > 0 && (s[0] == '+' || s[0] == '-') {
        let d = s.drop_first();
        if d.len() > 0 && all_digits(d) {
            Some(if s[0] == '-' { -digits_value(d) } else { digits_value(d) })
        } else {
            None
        }
    } else if s.len() > 0 && all_digits(s) {
        Some(digits_value(s))
    } else {
        None
    }
}

/// What `str::parse::<i32>` gives: the literal's value when it is well formed
/// and fits in an `i32`.
pub open spec fn parsed_i32(s: Seq<char>) -> Option<i32> {
    match decimal_literal(s) {
        Some(v) => if i32::MIN <= v <= i32::MAX { Some(v as i32) } else { None },
        None => None,
    }
}

/// What `str::parse::<i64>` gives: the literal's value when it is well formed
/// and fits in an `i64`.
pub open spec fn parsed_i64(s: Seq<char>) -> Option<i64> {
    match decimal_literal(s) {
        Some(v) => if i64::MIN <= v <= i64::MAX { Some(v as i64) } else { None },
        None => None,
    }
}

/// Calls `<i32 as FromStr>::from_str`. Its documentation: the string is an
/// optional `+` or `-` sign followed by digits only; any other character, an
/// empty digit run, or a value out of range is an error.
#[verifier::external_body]
pub(crate) fn parse_i32(s: &str) -> (r: Option<i32>)
    ensures
        r == parsed_i32(s@),
{
    s.parse::<i32>().ok()
}

/// Calls `<i64 as FromStr>::from_str`, documented as for `parse_i32` with the
/// range of `i64`.
#[verifier::external_body]
pub(crate) fn parse_i64(s: &str) -> (r: Option<i64>)
    ensures
        r == parsed_i64(s@),
{
    s.parse::<i64>().ok()
}

} // verus!

verus! {

/// The views of a sequence of strings.
pub open spec fn string_views(v: Seq<String>) -> Seq<Seq<char>> {
    v.map_values(|x: String| x@)
}

/// The pieces that `str::split` yields for a one-character separator: the
/// text between consecutive separators, empty pieces included, so that there
/// is always one piece more than there are separators.
pub open spec fn split_on(s: Seq<char>, sep: char) -> Seq<Seq<char>>
    decreases s.len(),
{
    if s.len() == 0 {
        seq![Seq::<char>::empty()]
    } else {
        let p = split_on(s.drop_last(), sep);
        if s.last() == sep {
            p.push(Seq::<char>::empty())
        } else {
            p.update(p.len() - 1, p.last().push(s.last()))
        }
    }
}

/// The pieces of `parts` that are not empty, in their order.
pub open spec fn drop_empty(parts: Seq<Seq<char>>) -> Seq<Seq<char>>
    decreases parts.len(),
{
    if parts.len() == 0 {
        Seq::<Seq<char>>::empty()
    } else {
        let r = drop_empty(parts.drop_last());
        if parts.last().len() > 0 {
            r.push(parts.last())
        } else {
            r
        }
    }
}

/// The non-empty pieces of `s` between occurrences of `sep`.
pub open spec fn tokens_of(s: Seq<char>, sep: char) -> Seq<Seq<char>> {
    drop_empty(split_on(s, sep))
}

proof fn lemma_split_on_len(s: Seq<char>, sep: char)
    ensures
        split_on(s, sep).len() >= 1,
    decreases s.len(),
{
    if s.len() > 0 {
        lemma_split_on_len(s.drop_last(), sep);
    }
}

/// Splits `s` at every occurrence of `sep`, as `str::split` does.
fn split_pieces(s: &str, sep: char) -> (r: Vec<String>)
    ensures
        string_views(r@) == split_on(s@, sep),
{
    let n = s.unicode_len();
    let mut pieces: Vec<String> = Vec::new();
    let mut start: usize = 0;
    let mut i: usize = 0;
    proof {
        assert(string_views(pieces@) =~= Seq::<Seq<char>>::empty());
        assert(s@.take(0).len() == 0);
        assert(s@.subrange(0, 0) =~= Seq::<char>::empty());
        assert(string_views(pieces@).push(s@.subrange(0, 0)) =~= split_on(s@.take(0), sep));
    }
    while i < n
        invariant
            n == s@.len(),
            start <= i <= n,
            string_views(pieces@).push(s@.subrange(start as int, i as int)) == split_on(
                s@.take(i as int),
                sep,
            ),
        decreases n - i,
    {
        let c = s.get_char(i);
        proof {
            let t = s@.take(i as int + 1);
            assert(t.drop_last() =~= s@.take(i as int));
            assert(t.last() == c);
            lemma_split_on_len(s@.take(i as int), sep);
        }
        if c == sep {
            let piece = String::from_str(s.substring_char(start, i));
            let ghost before = string_views(pieces@);
            pieces.push(piece);
            assert(string_views(pieces@) =~= before.push(s@.subrange(start as int, i as int)));
            start = i + 1;
            assert(s@.subrange(start as int, i as int + 1) =~= Seq::<char>::empty());
        } else {
            assert(s@.subrange(start as int, i as int + 1) =~= s@.subrange(
                start as int,
                i as int,
            ).push(c));
        }
        i = i + 1;
        proof {
            let t = s@.take(i as int);
            assert(string_views(pieces@).push(s@.subrange(start as int, i as int)) =~= split_on(
                t,
                sep,
            ));
        }
    }
    let last = String::from_str(s.substring_char(start, n));
    let ghost before = string_views(pieces@);
    pieces.push(last);
    assert(string_views(pieces@) =~= before.push(s@.subrange(start as int, n as int)));
    assert(s@.take(n as int) =~= s@);
    pieces
}

/// The non-empty pieces of `s` between occurrences of `sep`, in order: what
/// `s.split(sep).filter(|e| e.len() > 0)` collects.
pub fn tokens(s: &str, sep: char) -> (r: Vec<String>)
    ensures
        string_views(r@) == tokens_of(s@, sep),
{
    let pieces = split_pieces(s, sep);
    let mut out: Vec<String> = Vec::new();
    let mut j: usize = 0;
    while j < pieces.len()
        invariant
            j <= pieces@.len(),
            string_views(pieces@) == split_on(s@, sep),
            string_views(out@) == drop_empty(string_views(pieces@).take(j as int)),
        decreases pieces@.len() - j,
    {
        let ghost pv = string_views(pieces@);
        proof {
            assert(pv.take(j as int + 1).drop_last() =~= pv.take(j as int));
            assert(pv.take(j as int + 1).last() == pieces@[j as int]@);
        }
        let p = pieces[j].clone();
        if p.unicode_len() > 0 {
            let ghost before = string_views(out@);
            out.push(p);
            assert(string_views(out@) =~= before.push(pieces@[j as int]@));
        }
        j = j + 1;
    }
    assert(string_views(pieces@).take(pieces@.len() as int) =~= string_views(pieces@));
    out
}

} // verus!

verus! {

/// Whether `a` and `b` hold the same characters.
pub fn text_eq(a: &str, b: &str) -> (r: bool)
    ensures
        r == (a@ == b@),
{
    let n = a.unicode_len();
    let m = b.unicode_len();
    if n != m {
        return false;
    }
    let mut i: usize = 0;
    while i < n
        invariant
            n == a@.len(),
            n == b@.len(),
            i <= n,
            forall|k: int| 0 <= k < i ==> a@[k] == b@[k],
        decreases n - i,
    {
        if a.get_char(i) != b.get_char(i) {
            return false;
        }
        i = i + 1;
    }
    assert(a@ =~= b@);
    true
}

/// What `str::to_lowercase` gives for a string: its lowercase equivalent by
/// Unicode's lowercase mapping, where one character may become several.
pub uninterp spec fn lowercase(s: Seq<char>) -> Seq<char>;

/// Whether every character of `s` is ASCII.
pub open spec fn all_ascii(s: Seq<char>) -> bool {
    forall|i: int| 0 <= i < s.len() ==> (#[trigger] s[i] as int) < 128
}

/// The ASCII lowercase of one character: `A` to `Z` become `a` to `z`.
pub open spec fn ascii_lower_char(c: char) -> char {
    if 'A' <= c && c <= 'Z' {
        ((c as int) + 32) as char
    } else {
        c
    }
}

/// The ASCII lowercase of a string, character by character.
pub open spec fn ascii_lower(s: Seq<char>) -> Seq<char> {
    s.map_values(|c: char| ascii_lower_char(c))
}

/// Calls `str::to_lowercase`. Its result is named `lowercase`; besides, on an
/// all-ASCII string the Unicode lowercase mapping maps `A`..`Z` to `a`..`z`
/// and keeps every other character, which the contract states. Nothing else
/// is stated of non-ASCII input.
#[verifier::external_body]
pub(crate) fn to_lowercase(s: &str) -> (r: String)
    ensures
        r@ == lowercase(s@),
        all_ascii(s@) ==> r@ == ascii_lower(s@),
{
    s.to_lowercase()
}

/// What `{:?}` writes for a string slice: the text in double quotes, with the
/// characters that `char::escape_debug` escapes written as escapes.
pub uninterp spec fn debug_repr(s: Seq<char>) -> Seq<char>;

/// Whether every character of `s` is printable ASCII (space to `~`) other
/// than `"` and `\`: the characters that `escape_debug` leaves as they are.
pub open spec fn plain_ascii(s: Seq<char>) -> bool {
    forall|i: int|
        0 <= i < s.len() ==> ' ' <= #[trigger] s[i] && s[i] <= '~' && s[i] != '"' && s[i] != '\\'
}

/// The `Debug` text of a string as far as it is stated: plain text in double
/// quotes, and `debug_repr` otherwise.
pub open spec fn debug_text(s: Seq<char>) -> Seq<char> {
    if plain_ascii(s) {
        seq!['"'] + s + seq!['"']
    } else {
        debug_repr(s)
    }
}

/// Formats a string slice with `{:?}` (its `Debug` impl). The result is named
/// `debug_repr`. The contract also states the documented case of plain text:
/// the `Debug` form of a string is the string in double quotes, each
/// character escaped as `char::escape_debug` does, and printable ASCII other
/// than `"` and `\` is not escaped. Nothing is stated of other text.
#[verifier::external_body]
pub(crate) fn debug_string(s: &str) -> (r: String)
    ensures
        r@ == debug_repr(s@),
        plain_ascii(s@) ==> r@ == seq!['"'] + s@ + seq!['"'],
{
    format!("{:?}", s)
}

/// The decimal digit character for `d`.
pub open spec fn digit_char(d: int) -> char {
    ((d + '0' as int) as char)
}

/// The decimal representation of `n` without leading zeros, as `Display`
/// writes an unsigned integer.
pub open spec fn decimal_digits(n: nat) -> Seq<char>
    decreases n,
{
    if n < 10 {
        seq![digit_char(n as int)]
    } else {
        decimal_digits(n / 10).push(digit_char((n % 10) as int))
    }
}

fn digit_str(d: u16) -> (r: &'static str)
    requires
        d < 10,
    ensures
        r@ == seq![digit_char(d as int)],
{
    match d {
        0 => {
            proof { reveal_strlit("0"); }
            "0"
        },
        1 => {
            proof { reveal_strlit("1"); }
            "1"
        },
        2 => {
            proof { reveal_strlit("2"); }
            "2"
        },
        3 => {
            proof { reveal_strlit("3"); }
            "3"
        },
        4 => {
            proof { reveal_strlit("4"); }
            "4"
        },
        5 => {
            proof { reveal_strlit("5"); }
            "5"
        },
        6 => {
            proof { reveal_strlit("6"); }
            "6"
        },
        7 => {
            proof { reveal_strlit("7"); }
            "7"
        },
        8 => {
            proof { reveal_strlit("8"); }
            "8"
        },
        _ => {
            proof { reveal_strlit("9"); }
            "9"
        },
    }
}

/// The decimal text of `n`, as `n.to_string()` writes it.
pub fn decimal_string(n: u16) -> (r: String)
    ensures
        r@ == decimal_digits(n as nat),
    decreases n,
{
    if n < 10 {
        String::from_str(digit_str(n))
    } else {
        let mut s = decimal_string(n / 10);
        s.append(digit_str(n % 10));
        s
    }
}

} // verus!

verus! {

/// The decimal text of a signed integer as `Display` writes it: a `-` before
/// the digits of a negative number, no sign otherwise.
pub open spec fn signed_decimal(n: int) -> Seq<char> {
    if n < 0 {
        seq!['-'] + decimal_digits((-n) as nat)
    } else {
        decimal_digits(n as nat)
    }
}

proof fn lemma_decimal_digits(m: nat)
    ensures
        decimal_digits(m).len() >= 1,
        all_digits(decimal_digits(m)),
        digits_value(decimal_digits(m)) == m,
    decreases m,
{
    if m >= 10 {
        lemma_decimal_digits(m / 10);
        let p = decimal_digits(m / 10);
        let s = decimal_digits(m);
        assert(s.drop_last() =~= p);
        assert(digit_char((m % 10) as int) as int == (m % 10) + '0' as int);
        assert(s.last() == digit_char((m % 10) as int));
        assert(m == (m / 10) * 10 + m % 10);
        assert(digits_value(s) == digits_value(p) * 10 + (s.last() as int - '0' as int));
        assert forall|i: int| 0 <= i < s.len() implies is_digit(#[trigger] s[i]) by {
            if i < p.len() {
                assert(s[i] == p[i]);
            }
        }
    } else {
        assert(digit_char(m as int) as int == m + '0' as int);
        assert(decimal_digits(m).drop_last() =~= Seq::<char>::empty());
        assert(digits_value(decimal_digits(m)) == digits_value(Seq::<char>::empty()) * 10 + (
        decimal_digits(m).last() as int - '0' as int));
    }
}

/// Reading back the decimal text of any `i64` gives that `i64`: the text
/// that `Display` writes is one that `FromStr` accepts, with the same value.
pub proof fn lemma_i64_decimal_reads_back(n: i64)
    ensures
        parsed_i64(signed_decimal(n as int)) == Some(n),
{
    let s = signed_decimal(n as int);
    if n < 0 {
        let m = (-(n as int)) as nat;
        lemma_decimal_digits(m);
        assert(s.drop_first() =~= decimal_digits(m));
        assert(s[0] == '-');
    } else {
        lemma_decimal_digits(n as nat);
        assert(is_digit(s[0]));
    }
}

} // verus!

verus! {

/// Whether `c` occurs nowhere in `s`.
pub open spec fn free_of(s: Seq<char>, c: char) -> bool {
    forall|i: int| 0 <= i < s.len() ==> #[trigger] s[i] != c
}

/// Text without the separator is one piece.
pub proof fn lemma_split_without_separator(s: Seq<char>, sep: char)
    requires
        free_of(s, sep),
    ensures
        split_on(s, sep) == seq![s],
    decreases s.len(),
{
    if s.len() > 0 {
        let init = s.drop_last();
        assert(free_of(init, sep)) by {
            assert forall|i: int| 0 <= i < init.len() implies #[trigger] init[i] != sep by {
                assert(init[i] == s[i]);
            }
        }
        lemma_split_without_separator(init, sep);
        assert(s[s.len() - 1] != sep);
        assert(init.push(s.last()) =~= s);
        assert(split_on(s, sep) =~= seq![s]);
    } else {
        assert(s =~= Seq::<char>::empty());
    }
}

/// Appending text without the separator only extends the last piece.
pub proof fn lemma_split_extend(a: Seq<char>, b: Seq<char>, sep: char)
    requires
        free_of(b, sep),
    ensures
        split_on(a, sep).len() >= 1,
        split_on(a + b, sep) == split_on(a, sep).update(
            split_on(a, sep).len() - 1,
            split_on(a, sep).last() + b,
        ),
    decreases b.len(),
{
    lemma_split_on_len(a, sep);
    let p = split_on(a, sep);
    if b.len() == 0 {
        assert(a + b =~= a);
        assert(p.last() + b =~= p.last());
        assert(p.update(p.len() - 1, p.last() + b) =~= p);
    } else {
        let b0 = b.drop_last();
        assert(free_of(b0, sep)) by {
            assert forall|i: int| 0 <= i < b0.len() implies #[trigger] b0[i] != sep by {
                assert(b0[i] == b[i]);
            }
        }
        lemma_split_extend(a, b0, sep);
        let ab = a + b;
        assert(ab.drop_last() =~= a + b0);
        assert(ab.last() == b[b.len() - 1]);
        assert(b[b.len() - 1] != sep);
        let q = split_on(a + b0, sep);
        assert(q.len() == p.len());
        assert(q.last() =~= p.last() + b0);
        assert((p.last() + b0).push(b.last()) =~= p.last() + b);
        assert(split_on(ab, sep) =~= p.update(p.len() - 1, p.last() + b));
    }
}

/// Two non-empty pieces without the separator, joined by it, split back into
/// exactly those two pieces.
pub proof fn lemma_tokens_of_pair(k: Seq<char>, v: Seq<char>, sep: char)
    requires
        k.len() > 0,
        v.len() > 0,
        free_of(k, sep),
        free_of(v, sep),
    ensures
        tokens_of(k + seq![sep] + v, sep) == seq![k, v],
{
    lemma_split_without_separator(k, sep);
    let ks = k.push(sep);
    assert(k + seq![sep] =~= ks);
    assert(ks.drop_last() =~= k);
    assert(split_on(ks, sep) =~= seq![k, Seq::<char>::empty()]);
    lemma_split_extend(ks, v, sep);
    assert(Seq::<char>::empty() + v =~= v);
    let parts = split_on(ks + v, sep);
    assert(parts =~= seq![k, v]);
    assert(parts.drop_last() =~= seq![k]);
    assert(seq![k].drop_last() =~= Seq::<Seq<char>>::empty());
    assert(drop_empty(Seq::<Seq<char>>::empty()) =~= Seq::<Seq<char>>::empty());
    assert(seq![k].last() == k);
    assert(Seq::<Seq<char>>::empty().push(k) =~= seq![k]);
    assert(drop_empty(seq![k]) =~= seq![k]);
    assert(drop_empty(parts) =~= seq![k, v]);
}

/// Non-empty text without the separator is its one token.
pub proof fn lemma_tokens_of_single(s: Seq<char>, sep: char)
    requires
        s.len() > 0,
        free_of(s, sep),
    ensures
        tokens_of(s, sep) == seq![s],
{
    lemma_split_without_separator(s, sep);
    assert(seq![s].drop_last() =~= Seq::<Seq<char>>::empty());
    assert(drop_empty(Seq::<Seq<char>>::empty()) =~= Seq::<Seq<char>>::empty());
    assert(seq![s].last() == s);
    assert(Seq::<Seq<char>>::empty().push(s) =~= seq![s]);
    assert(drop_empty(seq![s]) =~= seq![s]);
}

} // verus!
