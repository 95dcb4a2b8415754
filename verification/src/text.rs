use vstd::prelude::*;

verus! {

// ---------------------------------------------------------------------
// Whitespace trimming, as applied to interactive input lines before the
// selection index is parsed.
// ---------------------------------------------------------------------

pub open spec fn is_space(c: char) -> bool {
    c == ' ' || c == '\t' || c == '\n' || c == '\r'
}

pub open spec fn trim_front(s: Seq<char>) -> Seq<char>
    decreases s.len(),
{
    if s.len() > 0 && is_space(s[0]) {
        trim_front(s.skip(1))
    } else {
        s
    }
}

pub open spec fn trim_back(s: Seq<char>) -> Seq<char>
    decreases s.len(),
{
    if s.len() > 0 && is_space(s.last()) {
        trim_back(s.drop_last())
    } else {
        s
    }
}

/// `s` without leading and trailing whitespace.
pub open spec fn spec_trim(s: Seq<char>) -> Seq<char> {
    trim_back(trim_front(s))
}

/// Strip leading and trailing whitespace from a line of input.
pub fn trim<'a>(s: &'a str) -> (r: &'a str)
    ensures
        r@ == spec_trim(s@),
{
    let n = s.unicode_len();
    let mut lo: usize = 0;
    let mut front_done = false;
    proof {
        assert(s@.skip(0) =~= s@);
    }
    while !front_done && lo < n
        invariant
            0 <= lo <= n,
            n == s@.len(),
            trim_front(s@) == trim_front(s@.skip(lo as int)),
            front_done ==> lo < n && !is_space(s@[lo as int]),
        decreases n - lo, (if front_done { 0int } else { 1int }),
    {
        let c = s.get_char(lo);
        if c == ' ' || c == '\t' || c == '\n' || c == '\r' {
            proof {
                let t = s@.skip(lo as int);
                assert(t[0] == s@[lo as int]);
                assert(t.skip(1) =~= s@.skip(lo as int + 1));
            }
            lo = lo + 1;
        } else {
            front_done = true;
        }
    }
    proof {
        let t = s@.skip(lo as int);
        if lo == n {
            assert(t =~= Seq::<char>::empty());
        } else {
            assert(t[0] == s@[lo as int]);
        }
        assert(trim_front(s@) == t);
    }
    let ghost t = s@.skip(lo as int);
    let mut hi: usize = n;
    let mut back_done = false;
    proof {
        assert(t.take(n - lo) =~= t);
    }
    while !back_done && hi > lo
        invariant
            lo <= hi <= n,
            n == s@.len(),
            t == s@.skip(lo as int),
            trim_back(t) == trim_back(t.take(hi - lo)),
            back_done ==> hi > lo && !is_space(s@[hi - 1]),
        decreases hi - lo, (if back_done { 0int } else { 1int }),
    {
        let c = s.get_char(hi - 1);
        if c == ' ' || c == '\t' || c == '\n' || c == '\r' {
            proof {
                let k = hi - lo;
                assert(t.take(k).last() == s@[hi - 1]);
                assert(t.take(k).drop_last() =~= t.take(k - 1));
            }
            hi = hi - 1;
        } else {
            back_done = true;
        }
    }
    proof {
        let k = hi - lo;
        if hi == lo {
            assert(t.take(k) =~= Seq::<char>::empty());
        } else {
            assert(t.take(k).last() == s@[hi - 1]);
        }
        assert(trim_back(t) == t.take(k));
        assert(t.take(k) =~= s@.subrange(lo as int, hi as int));
    }
    s.substring_char(lo, hi)
}

// ---------------------------------------------------------------------
// Comma splitting, as applied to the variable list handed to the log
// print command. No whitespace is trimmed and nothing is deduplicated:
// every segment goes to the device verbatim.
// ---------------------------------------------------------------------

pub open spec fn split_rec(s: Seq<char>, from: int, cur: int, acc: Seq<Seq<char>>) -> Seq<
    Seq<char>,
>
    recommends
        0 <= from <= cur <= s.len(),
    decreases s.len() - cur,
{
    if cur < 0 || cur >= s.len() {
        acc + seq![s.subrange(from, s.len() as int)]
    } else if s[cur] == ',' {
        split_rec(s, cur + 1, cur + 1, acc + seq![s.subrange(from, cur)])
    } else {
        split_rec(s, from, cur + 1, acc)
    }
}

/// The segments of `s` between commas, in order. A text without a comma
/// is one segment; an empty text is one empty segment.
pub open spec fn spec_split_commas(s: Seq<char>) -> Seq<Seq<char>> {
    split_rec(s, 0, 0, Seq::empty())
}

/// Split a text on commas, keeping every segment verbatim and in order.
pub fn split_commas(s: &str) -> (r: Vec<String>)
    ensures
        r.deep_view() == spec_split_commas(s@),
{
    let n = s.unicode_len();
    let mut r: Vec<String> = Vec::new();
    let mut from: usize = 0;
    let mut cur: usize = 0;
    proof {
        assert(r.deep_view() =~= Seq::<Seq<char>>::empty());
    }
    while cur < n
        invariant
            0 <= from <= cur <= n,
            n == s@.len(),
            split_rec(s@, from as int, cur as int, r.deep_view()) == spec_split_commas(s@),
        decreases n - cur,
    {
        let c = s.get_char(cur);
        if c == ',' {
            let ghost before = r.deep_view();
            let seg = s.substring_char(from, cur).to_owned();
            r.push(seg);
            proof {
                assert(r.deep_view() =~= before + seq![s@.subrange(from as int, cur as int)]);
            }
            from = cur + 1;
            cur = cur + 1;
        } else {
            cur = cur + 1;
        }
    }
    let ghost before = r.deep_view();
    let seg = s.substring_char(from, n).to_owned();
    r.push(seg);
    proof {
        assert(r.deep_view() =~= before + seq![s@.subrange(from as int, n as int)]);
    }
    r
}

pub open spec fn comma_free(seg: Seq<char>) -> bool {
    forall|j: int| 0 <= j < seg.len() ==> seg[j] != ','
}

/// The segments rejoined with a comma between each pair.
pub open spec fn join_commas(parts: Seq<Seq<char>>) -> Seq<char>
    decreases parts.len(),
{
    if parts.len() == 0 {
        Seq::empty()
    } else if parts.len() == 1 {
        parts[0]
    } else {
        parts[0] + seq![','] + join_commas(parts.skip(1))
    }
}

proof fn lemma_split_rec_exact(s: Seq<char>, from: int, cur: int, acc: Seq<Seq<char>>)
    requires
        0 <= from <= cur <= s.len(),
        comma_free(s.subrange(from, cur)),
    ensures
        ({
            let r = split_rec(s, from, cur, acc);
            &&& r.len() > acc.len()
            &&& r.take(acc.len() as int) == acc
            &&& join_commas(r.skip(acc.len() as int)) == s.subrange(from, s.len() as int)
            &&& forall|i: int| acc.len() <= i < r.len() ==> comma_free(#[trigger] r[i])
        }),
    decreases s.len() - cur,
{
    let r = split_rec(s, from, cur, acc);
    if cur >= s.len() {
        let seg = s.subrange(from, s.len() as int);
        assert(r == acc + seq![seg]);
        assert(r.take(acc.len() as int) =~= acc);
        assert(r.skip(acc.len() as int) =~= seq![seg]);
        assert(join_commas(seq![seg]) == seg);
        assert(seg =~= s.subrange(from, cur));
    } else if s[cur] == ',' {
        let seg = s.subrange(from, cur);
        let acc2 = acc + seq![seg];
        assert(comma_free(s.subrange(cur + 1, cur + 1))) by {
            assert(s.subrange(cur + 1, cur + 1) =~= Seq::<char>::empty());
        }
        lemma_split_rec_exact(s, cur + 1, cur + 1, acc2);
        assert(r == split_rec(s, cur + 1, cur + 1, acc2));
        assert(r.take(acc2.len() as int) == acc2);
        assert(r.take(acc.len() as int) =~= acc) by {
            assert(forall|i: int|
                0 <= i < acc.len() ==> r.take(acc2.len() as int)[i] == #[trigger] acc2[i]);
        }
        assert(r[acc.len() as int] == r.take(acc2.len() as int)[acc.len() as int]);
        assert(r[acc.len() as int] == seg);
        let rest = r.skip(acc2.len() as int);
        assert(r.skip(acc.len() as int) =~= seq![seg] + rest);
        assert((seq![seg] + rest).len() >= 2);
        assert((seq![seg] + rest).skip(1) =~= rest);
        assert((seq![seg] + rest)[0] == seg);
        assert(join_commas(r.skip(acc.len() as int)) == seg + seq![','] + join_commas(rest));
        assert(seg + seq![','] + s.subrange(cur + 1, s.len() as int) =~= s.subrange(
            from,
            s.len() as int,
        ));
    } else {
        assert(comma_free(s.subrange(from, cur + 1))) by {
            assert(forall|j: int|
                0 <= j < cur - from ==> s.subrange(from, cur + 1)[j] == #[trigger] s.subrange(
                    from,
                    cur,
                )[j]);
            assert(s.subrange(from, cur + 1)[cur - from] == s[cur]);
        }
        lemma_split_rec_exact(s, from, cur + 1, acc);
    }
}

/// The split is exact: it yields at least one segment, no segment holds a
/// comma, and rejoining the segments with commas restores the input. So
/// the variable list handed to a log block holds exactly the names the
/// user gave, verbatim and in order.
pub proof fn lemma_split_commas_exact(s: Seq<char>)
    ensures
        spec_split_commas(s).len() >= 1,
        join_commas(spec_split_commas(s)) == s,
        forall|i: int|
            0 <= i < spec_split_commas(s).len() ==> comma_free(#[trigger] spec_split_commas(s)[i]),
{
    assert(comma_free(s.subrange(0, 0))) by {
        assert(s.subrange(0, 0) =~= Seq::<char>::empty());
    }
    lemma_split_rec_exact(s, 0, 0, Seq::empty());
    let r = split_rec(s, 0, 0, Seq::<Seq<char>>::empty());
    assert(r.skip(0) =~= r);
    assert(s.subrange(0, s.len() as int) =~= s);
}

// ---------------------------------------------------------------------
// Column padding for the tabular listings.
// ---------------------------------------------------------------------

pub open spec fn spaces(n: int) -> Seq<char>
    decreases n,
{
    if n <= 0 {
        Seq::empty()
    } else {
        spaces(n - 1) + seq![' ']
    }
}

/// `s` padded with spaces on the right to width `w`; a longer text is
/// kept whole.
pub open spec fn pad_right(s: Seq<char>, w: int) -> Seq<char> {
    if s.len() >= w {
        s
    } else {
        s + spaces(w - s.len())
    }
}

/// `s` centered in a field of width `w`, the spare space split evenly
/// and the odd space going to the right; a longer text is kept whole.
pub open spec fn center(s: Seq<char>, w: int) -> Seq<char> {
    if s.len() >= w {
        s
    } else {
        let left = (w - s.len()) / 2;
        spaces(left) + s + spaces(w - s.len() - left)
    }
}

fn append_spaces(r: &mut String, k: usize)
    ensures
        final(r)@ == old(r)@ + spaces(k as int),
{
    proof {
        reveal_strlit(" ");
        assert(" "@ =~= seq![' ']);
    }
    let mut j: usize = 0;
    while j < k
        invariant
            0 <= j <= k,
            r@ == old(r)@ + spaces(j as int),
        decreases k - j,
    {
        r.append(" ");
        proof {
            reveal_strlit(" ");
            assert(" "@ =~= seq![' ']);
            assert(spaces(j as int + 1) == spaces(j as int) + seq![' ']);
            assert(r@ =~= old(r)@ + spaces(j as int + 1));
        }
        j = j + 1;
    }
    proof {
        assert(r@ =~= old(r)@ + spaces(k as int));
    }
}

/// Pad a text with spaces on the right to the given column width.
pub fn pad_right_str(s: &str, w: usize) -> (r: String)
    ensures
        r@ == pad_right(s@, w as int),
{
    let n = s.unicode_len();
    let mut r = s.to_owned();
    if n < w {
        append_spaces(&mut r, w - n);
    }
    r
}

/// Center a text in a field of the given width.
pub fn center_str(s: &str, w: usize) -> (r: String)
    ensures
        r@ == center(s@, w as int),
{
    let n = s.unicode_len();
    if n >= w {
        s.to_owned()
    } else {
        let left = (w - n) / 2;
        let right = (w - n) - left;
        let mut r = String::new();
        append_spaces(&mut r, left);
        r.append(s);
        append_spaces(&mut r, right);
        proof {
            assert(r@ =~= spaces(left as int) + s@ + spaces(right as int));
        }
        r
    }
}

} // verus!
