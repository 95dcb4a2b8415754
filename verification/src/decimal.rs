use vstd::prelude::*;

verus! {

// ---------------------------------------------------------------------
// The canonical text format of integer values: an optional sign followed
// by decimal digits. This is the format the marshalling contract parses
// when a parameter is written, and the format value rendering produces.
// ---------------------------------------------------------------------

pub open spec fn is_digit(c: char) -> bool {
    48 <= c as int && c as int <= 57
}

pub open spec fn digit_val(c: char) -> int {
    c as int - 48
}

pub open spec fn all_digits(s: Seq<char>) -> bool {
    forall|i: int| 0 <= i < s.len() ==> is_digit(#[trigger] s[i])
}

/// The number a digit string denotes, most significant digit first.
pub open spec fn digits_val(s: Seq<char>) -> int
    decreases s.len(),
{
    if s.len() == 0 {
        0
    } else {
        digits_val(s.drop_last()) * 10 + digit_val(s.last())
    }
}

/// Whether `s` is a well-formed unsigned decimal: an optional leading
/// `+`, then at least one digit and nothing else.
pub open spec fn valid_uint_text(s: Seq<char>) -> bool {
    let d = if s.len() > 0 && s[0] == '+' {
        s.skip(1)
    } else {
        s
    };
    d.len() > 0 && all_digits(d)
}

/// The value of a well-formed unsigned decimal.
pub open spec fn uint_text_val(s: Seq<char>) -> int
    recommends
        valid_uint_text(s),
{
    if s.len() > 0 && s[0] == '+' {
        digits_val(s.skip(1))
    } else {
        digits_val(s)
    }
}

/// Whether `s` is a well-formed signed decimal: an optional leading `+`
/// or `-`, then at least one digit and nothing else.
pub open spec fn valid_int_text(s: Seq<char>) -> bool {
    let d = if s.len() > 0 && (s[0] == '+' || s[0] == '-') {
        s.skip(1)
    } else {
        s
    };
    d.len() > 0 && all_digits(d)
}

/// The value of a well-formed signed decimal.
pub open spec fn int_text_val(s: Seq<char>) -> int
    recommends
        valid_int_text(s),
{
    if s.len() > 0 && s[0] == '-' {
        -digits_val(s.skip(1))
    } else if s.len() > 0 && s[0] == '+' {
        digits_val(s.skip(1))
    } else {
        digits_val(s)
    }
}

pub proof fn lemma_digits_val_nonneg(s: Seq<char>)
    requires
        all_digits(s),
    ensures
        digits_val(s) >= 0,
    decreases s.len(),
{
    if s.len() > 0 {
        assert(all_digits(s.drop_last())) by {
            assert(forall|i: int|
                0 <= i < s.drop_last().len() ==> #[trigger] s.drop_last()[i] == s[i]);
        }
        lemma_digits_val_nonneg(s.drop_last());
        assert(is_digit(s.last()));
        assert(digits_val(s.drop_last()) * 10 >= 0) by (nonlinear_arith)
            requires
                digits_val(s.drop_last()) >= 0,
        ;
    }
}

/// A digit string is worth at least as much as any of its prefixes.
pub proof fn lemma_digits_val_prefix_le(s: Seq<char>, k: int)
    requires
        all_digits(s),
        0 <= k <= s.len(),
    ensures
        digits_val(s.take(k)) <= digits_val(s),
    decreases s.len() - k,
{
    if k == s.len() {
        assert(s.take(k) =~= s);
    } else {
        lemma_digits_val_prefix_le(s, k + 1);
        let t = s.take(k + 1);
        assert(t.drop_last() =~= s.take(k));
        assert(all_digits(s.take(k))) by {
            assert(forall|i: int| 0 <= i < k ==> #[trigger] s.take(k)[i] == s[i]);
        }
        lemma_digits_val_nonneg(s.take(k));
        assert(is_digit(t.last()));
        assert(digits_val(s.take(k)) * 10 >= digits_val(s.take(k))) by (nonlinear_arith)
            requires
                digits_val(s.take(k)) >= 0,
        ;
        assert(digits_val(t) == digits_val(s.take(k)) * 10 + digit_val(t.last()));
    }
}

/// Parse the digit run of `s` that starts at character `from`. The whole
/// remainder must be digits and denote a value that fits in a `u64`;
/// anything else is rejected.
fn parse_digits(s: &str, from: usize) -> (r: Option<u64>)
    requires
        from <= s@.len(),
    ensures
        r is Some <==> {
            let d = s@.skip(from as int);
            d.len() > 0 && all_digits(d) && digits_val(d) <= u64::MAX
        },
        r matches Some(v) ==> v == digits_val(s@.skip(from as int)),
{
    let ghost d = s@.skip(from as int);
    let n = s.unicode_len();
    if from == n {
        assert(d.len() == 0);
        return None;
    }
    let mut acc: u64 = 0;
    let mut i = from;
    while i < n
        invariant
            from <= i <= n,
            n == s@.len(),
            from < n,
            d == s@.skip(from as int),
            all_digits(s@.subrange(from as int, i as int)),
            acc == digits_val(s@.subrange(from as int, i as int)),
        decreases n - i,
    {
        let ghost pre = s@.subrange(from as int, i as int);
        let c = s.get_char(i);
        let cv = c as u32;
        if cv < 48 || cv > 57 {
            assert(d[i - from] == c);
            assert(!is_digit(c));
            return None;
        }
        let dv = (cv - 48) as u64;
        assert(dv == digit_val(c) && dv <= 9);
        if acc > (u64::MAX - dv) / 10 {
            // The value read so far no longer fits; if the rest of the
            // text is digits at all, the whole value does not fit either.
            proof {
                let pre1 = s@.subrange(from as int, i as int + 1);
                assert(pre1.drop_last() =~= pre);
                assert(pre1.last() == c);
                assert(acc * 10 + dv > u64::MAX) by (nonlinear_arith)
                    requires
                        acc > (u64::MAX - dv) / 10,
                        dv <= 9,
                ;
                assert(digits_val(pre1) > u64::MAX);
                if all_digits(d) {
                    assert(d.take(i - from + 1) =~= pre1);
                    lemma_digits_val_prefix_le(d, i - from + 1);
                    assert(digits_val(d) > u64::MAX);
                }
            }
            return None;
        }
        proof {
            assert(acc * 10 + dv <= u64::MAX) by (nonlinear_arith)
                requires
                    acc <= (u64::MAX - dv) / 10,
                    dv <= 9,
            ;
        }
        let ghost pre1 = s@.subrange(from as int, i as int + 1);
        acc = acc * 10 + dv;
        i = i + 1;
        proof {
            assert(pre1.drop_last() =~= pre);
            assert(pre1.last() == c);
            assert(all_digits(pre1)) by {
                assert(forall|j: int|
                    0 <= j < pre.len() ==> #[trigger] pre1[j] == pre[j]);
            }
        }
    }
    assert(s@.subrange(from as int, n as int) =~= d);
    Some(acc)
}

/// Parse an unsigned decimal: an optional `+`, then digits. Succeeds on
/// exactly the texts whose value fits in a `u64`.
pub fn parse_u64(s: &str) -> (r: Option<u64>)
    ensures
        r is Some <==> valid_uint_text(s@) && uint_text_val(s@) <= u64::MAX,
        r matches Some(v) ==> v == uint_text_val(s@),
{
    let n = s.unicode_len();
    if n > 0 && s.get_char(0) == '+' {
        parse_digits(s, 1)
    } else {
        assert(s@.skip(0) =~= s@);
        parse_digits(s, 0)
    }
}

/// Parse a signed decimal: an optional `+` or `-`, then digits. Succeeds
/// on exactly the texts whose value fits in an `i64`.
pub fn parse_i64(s: &str) -> (r: Option<i64>)
    ensures
        r is Some <==> valid_int_text(s@) && i64::MIN <= int_text_val(s@) <= i64::MAX,
        r matches Some(v) ==> v == int_text_val(s@),
{
    let n = s.unicode_len();
    if n > 0 && s.get_char(0) == '-' {
        let ghost d = s@.skip(1);
        match parse_digits(s, 1) {
            Some(mag) => {
                proof {
                    if all_digits(d) {
                        lemma_digits_val_nonneg(d);
                    }
                }
                if mag > 9223372036854775808u64 {
                    None
                } else if mag == 9223372036854775808u64 {
                    Some(i64::MIN)
                } else {
                    Some(-(mag as i64))
                }
            },
            None => {
                // Either the text is malformed or its magnitude exceeds
                // u64::MAX, and then its negation is below i64::MIN.
                proof {
                    if valid_int_text(s@) {
                        lemma_digits_val_nonneg(d);
                    }
                }
                None
            },
        }
    } else if n > 0 && s.get_char(0) == '+' {
        match parse_digits(s, 1) {
            Some(mag) => {
                if mag <= i64::MAX as u64 {
                    Some(mag as i64)
                } else {
                    None
                }
            },
            None => None,
        }
    } else {
        assert(s@.skip(0) =~= s@);
        match parse_digits(s, 0) {
            Some(mag) => {
                if mag <= i64::MAX as u64 {
                    Some(mag as i64)
                } else {
                    None
                }
            },
            None => None,
        }
    }
}

// ---------------------------------------------------------------------
// Rendering: the decimal text of an integer value, most significant
// digit first and with no leading zero except for zero itself.
// ---------------------------------------------------------------------

pub open spec fn digit_char(d: int) -> char {
    if d == 0 {
        '0'
    } else if d == 1 {
        '1'
    } else if d == 2 {
        '2'
    } else if d == 3 {
        '3'
    } else if d == 4 {
        '4'
    } else if d == 5 {
        '5'
    } else if d == 6 {
        '6'
    } else if d == 7 {
        '7'
    } else if d == 8 {
        '8'
    } else {
        '9'
    }
}

/// The canonical decimal digit string of a non-negative number.
pub open spec fn dec_digits(n: int) -> Seq<char>
    recommends
        n >= 0,
    decreases n,
{
    if n < 10 {
        seq![digit_char(n)]
    } else {
        dec_digits(n / 10) + seq![digit_char(n % 10)]
    }
}

/// The canonical decimal text of an integer, with a leading `-` when it
/// is negative.
pub open spec fn spec_render_int(x: int) -> Seq<char> {
    if x < 0 {
        seq!['-'] + dec_digits(-x)
    } else {
        dec_digits(x)
    }
}

fn digit_str(d: u8) -> (r: &'static str)
    requires
        d < 10,
    ensures
        r@ =~= seq![digit_char(d as int)],
{
    proof {
        reveal_strlit("0");
        reveal_strlit("1");
        reveal_strlit("2");
        reveal_strlit("3");
        reveal_strlit("4");
        reveal_strlit("5");
        reveal_strlit("6");
        reveal_strlit("7");
        reveal_strlit("8");
        reveal_strlit("9");
    }
    match d {
        0 => "0",
        1 => "1",
        2 => "2",
        3 => "3",
        4 => "4",
        5 => "5",
        6 => "6",
        7 => "7",
        8 => "8",
        _ => "9",
    }
}

/// Render an unsigned value as canonical decimal text.
pub fn render_u64(v: u64) -> (r: String)
    ensures
        r@ == dec_digits(v as int),
    decreases v,
{
    if v < 10 {
        let s = digit_str(v as u8);
        s.to_owned()
    } else {
        assert(v / 10 < v) by (nonlinear_arith)
            requires
                v >= 10,
        ;
        let mut r = render_u64(v / 10);
        r.append(digit_str((v % 10) as u8));
        r
    }
}

/// Render a signed value as canonical decimal text.
pub fn render_i64(v: i64) -> (r: String)
    ensures
        r@ == spec_render_int(v as int),
{
    if v >= 0 {
        render_u64(v as u64)
    } else {
        let mag: u64 = if v == i64::MIN {
            9223372036854775808u64
        } else {
            (-v) as u64
        };
        proof {
            reveal_strlit("-");
        }
        let mut r = String::new();
        r.append("-");
        let tail = render_u64(mag);
        r.append(tail.as_str());
        assert(r@ =~= seq!['-'] + dec_digits(mag as int));
        r
    }
}

// ---------------------------------------------------------------------
// The round-trip laws between rendering and the canonical parser.
// ---------------------------------------------------------------------

/// Rendering is faithful: the canonical digit string of `n` is made of
/// digits and parses back to `n`.
pub proof fn lemma_dec_digits_parse_back(n: int)
    requires
        n >= 0,
    ensures
        all_digits(dec_digits(n)),
        dec_digits(n).len() >= 1,
        digits_val(dec_digits(n)) == n,
    decreases n,
{
    if n < 10 {
        let s = dec_digits(n);
        assert(s =~= seq![digit_char(n)]);
        assert(is_digit(digit_char(n)));
        assert(s.drop_last() =~= Seq::<char>::empty());
        assert(digits_val(Seq::<char>::empty()) == 0);
        assert(s.len() == 1 && s.last() == digit_char(n));
        assert(digits_val(s) == digits_val(s.drop_last()) * 10 + digit_val(s.last()));
        assert(digits_val(s) == digit_val(digit_char(n)));
    } else {
        lemma_dec_digits_parse_back(n / 10);
        let h = dec_digits(n / 10);
        let s = dec_digits(n);
        assert(s == h + seq![digit_char(n % 10)]);
        assert(s.drop_last() =~= h);
        assert(s.last() == digit_char(n % 10));
        assert(is_digit(digit_char(n % 10)));
        assert(all_digits(s)) by {
            assert(forall|i: int| 0 <= i < h.len() ==> #[trigger] s[i] == h[i]);
        }
        assert(digits_val(s) == (n / 10) * 10 + digit_val(digit_char(n % 10)));
        assert(0 <= n % 10 < 10);
        assert(digit_val(digit_char(n % 10)) == n % 10);
        assert((n / 10) * 10 + n % 10 == n) by (nonlinear_arith)
            requires
                n >= 0,
        ;
    }
}

/// The round trip for unsigned values: rendered text is a well-formed
/// unsigned decimal and parses back to the same value.
pub proof fn lemma_render_parse_u64(v: u64)
    ensures
        valid_uint_text(dec_digits(v as int)),
        uint_text_val(dec_digits(v as int)) == v,
{
    lemma_dec_digits_parse_back(v as int);
    let s = dec_digits(v as int);
    assert(is_digit(s[0]));
    assert(s[0] != '+');
}

/// The round trip for signed values: rendered text is a well-formed
/// signed decimal and parses back to the same value.
pub proof fn lemma_render_parse_i64(v: i64)
    ensures
        valid_int_text(spec_render_int(v as int)),
        int_text_val(spec_render_int(v as int)) == v,
{
    if v >= 0 {
        lemma_dec_digits_parse_back(v as int);
        let s = spec_render_int(v as int);
        assert(is_digit(s[0]));
        assert(s[0] != '+' && s[0] != '-');
    } else {
        lemma_dec_digits_parse_back(-(v as int));
        let s = spec_render_int(v as int);
        let d = dec_digits(-(v as int));
        assert(s == seq!['-'] + d);
        assert(s[0] == '-');
        assert(s.skip(1) =~= d);
    }
}

} // verus!
