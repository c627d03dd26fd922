//! Character-level text utilities shared by the protocol framer and the
//! telemetry parser: prefix tests, equality, searching, line splitting,
//! trimming, and parsing of decimal numerals into fixed-point centi-units.

use vstd::prelude::*;

verus! {

/// `p` is a prefix of `s`.
pub open spec fn seq_starts_with(s: Seq<char>, p: Seq<char>) -> bool {
    p.len() <= s.len() && s.subrange(0, p.len() as int) == p
}

/// Exact prefix test over the characters of two string slices.
pub fn str_starts_with(s: &str, p: &str) -> (r: bool)
    ensures
        r == seq_starts_with(s@, p@),
{
    let sl = s.unicode_len();
    let pl = p.unicode_len();
    if pl > sl {
        return false;
    }
    let mut i: usize = 0;
    while i < pl
        invariant
            i <= pl <= sl,
            sl == s@.len(),
            pl == p@.len(),
            forall|j: int| 0 <= j < i ==> s@[j] == p@[j],
        decreases pl - i,
    {
        if s.get_char(i) != p.get_char(i) {
            proof {
                if seq_starts_with(s@, p@) {
                    assert(s@.subrange(0, p@.len() as int)[i as int] == p@[i as int]);
                }
            }
            return false;
        }
        i = i + 1;
    }
    proof {
        assert(s@.subrange(0, p@.len() as int) =~= p@);
    }
    true
}

/// Character-for-character equality of two string slices.
pub fn str_eq(a: &str, b: &str) -> (r: bool)
    ensures
        r == (a@ == b@),
{
    let al = a.unicode_len();
    let bl = b.unicode_len();
    if al != bl {
        return false;
    }
    let mut i: usize = 0;
    while i < al
        invariant
            i <= al,
            al == a@.len(),
            al == b@.len(),
            forall|j: int| 0 <= j < i ==> a@[j] == b@[j],
        decreases al - i,
    {
        if a.get_char(i) != b.get_char(i) {
            return false;
        }
        i = i + 1;
    }
    proof {
        assert(a@ =~= b@);
    }
    true
}

/// Index of the first occurrence of `c` in `s` at or after position `i`.
pub open spec fn find_from(s: Seq<char>, c: char, i: int) -> Option<int>
    decreases s.len() - i,
{
    if i < 0 || i >= s.len() {
        None
    } else if s[i] == c {
        Some(i)
    } else {
        find_from(s, c, i + 1)
    }
}

/// First occurrence of `c` in `s` at or after `from`, as executable search.
pub fn find_char_from(s: &str, c: char, from: usize) -> (r: Option<usize>)
    requires
        from <= s@.len(),
    ensures
        match r {
            None => find_from(s@, c, from as int) is None,
            Some(k) => from <= k < s@.len() && find_from(s@, c, from as int) == Some(k as int),
        },
{
    let n = s.unicode_len();
    let mut i: usize = from;
    while i < n
        invariant
            from <= i <= n,
            n == s@.len(),
            forall|j: int| from <= j < i ==> s@[j] != c,
            find_from(s@, c, from as int) == find_from(s@, c, i as int),
        decreases n - i,
    {
        if s.get_char(i) == c {
            return Some(i);
        }
        i = i + 1;
    }
    None
}

/// Remove the longest run of `c` from both ends of `s`.
pub open spec fn trim_char(s: Seq<char>, c: char) -> Seq<char>
    decreases s.len(),
{
    if s.len() == 0 {
        s
    } else if s[0] == c {
        trim_char(s.skip(1), c)
    } else if s[s.len() - 1] == c {
        trim_char(s.take(s.len() - 1), c)
    } else {
        s
    }
}

/// ASCII whitespace, the only kind the wire protocol produces.
pub open spec fn is_ws_char(c: char) -> bool {
    c == ' ' || c == '\t' || c == '\r' || c == '\n'
}

/// Remove the longest run of ASCII whitespace from both ends of `s`.
pub open spec fn trim_ws(s: Seq<char>) -> Seq<char>
    decreases s.len(),
{
    if s.len() == 0 {
        s
    } else if is_ws_char(s[0]) {
        trim_ws(s.skip(1))
    } else if is_ws_char(s[s.len() - 1]) {
        trim_ws(s.take(s.len() - 1))
    } else {
        s
    }
}

/// Strip every leading and trailing double-quote character.
pub fn trim_quotes(s: &str) -> (r: String)
    ensures
        r@ == trim_char(s@, '"'),
{
    let n = s.unicode_len();
    let mut lo: usize = 0;
    let mut hi: usize = n;
    proof {
        assert(s@.subrange(0, s@.len() as int) =~= s@);
    }
    while lo < hi && s.get_char(lo) == '"'
        invariant
            lo <= hi <= n,
            n == s@.len(),
            trim_char(s@.subrange(lo as int, hi as int), '"') == trim_char(s@, '"'),
        decreases hi - lo,
    {
        proof {
            let t = s@.subrange(lo as int, hi as int);
            assert(t.skip(1) =~= s@.subrange(lo as int + 1, hi as int));
        }
        lo = lo + 1;
    }
    while lo < hi && s.get_char(hi - 1) == '"'
        invariant
            lo <= hi <= n,
            n == s@.len(),
            trim_char(s@.subrange(lo as int, hi as int), '"') == trim_char(s@, '"'),
            lo < hi ==> s@[lo as int] != '"',
        decreases hi - lo,
    {
        proof {
            let t = s@.subrange(lo as int, hi as int);
            assert(t.take(t.len() - 1) =~= s@.subrange(lo as int, hi as int - 1));
        }
        hi = hi - 1;
    }
    proof {
        let t = s@.subrange(lo as int, hi as int);
        assert(trim_char(t, '"') == t);
    }
    String::from_str(s.substring_char(lo, hi))
}

/// Executable test for ASCII whitespace.
pub fn is_ws(c: char) -> (r: bool)
    ensures
        r == is_ws_char(c),
{
    c == ' ' || c == '\t' || c == '\r' || c == '\n'
}

/// Strip every leading and trailing ASCII whitespace character.
pub fn trim_ws_str(s: &str) -> (r: String)
    ensures
        r@ == trim_ws(s@),
{
    let n = s.unicode_len();
    let mut lo: usize = 0;
    let mut hi: usize = n;
    proof {
        assert(s@.subrange(0, s@.len() as int) =~= s@);
    }
    while lo < hi && is_ws(s.get_char(lo))
        invariant
            lo <= hi <= n,
            n == s@.len(),
            trim_ws(s@.subrange(lo as int, hi as int)) == trim_ws(s@),
        decreases hi - lo,
    {
        proof {
            let t = s@.subrange(lo as int, hi as int);
            assert(t.skip(1) =~= s@.subrange(lo as int + 1, hi as int));
        }
        lo = lo + 1;
    }
    while lo < hi && is_ws(s.get_char(hi - 1))
        invariant
            lo <= hi <= n,
            n == s@.len(),
            trim_ws(s@.subrange(lo as int, hi as int)) == trim_ws(s@),
            lo < hi ==> !is_ws_char(s@[lo as int]),
        decreases hi - lo,
    {
        proof {
            let t = s@.subrange(lo as int, hi as int);
            assert(t.take(t.len() - 1) =~= s@.subrange(lo as int, hi as int - 1));
        }
        hi = hi - 1;
    }
    proof {
        let t = s@.subrange(lo as int, hi as int);
        assert(trim_ws(t) == t);
    }
    String::from_str(s.substring_char(lo, hi))
}

/// Drop one carriage return at the end of a line, if present.
pub open spec fn strip_cr(l: Seq<char>) -> Seq<char> {
    if l.len() > 0 && l[l.len() - 1] == '\r' {
        l.take(l.len() - 1)
    } else {
        l
    }
}

/// Helper for `split_lines`: `cur` is the part of the current line read
/// so far.  A final line without a terminator is kept; an empty tail
/// after a final terminator is not a line.
pub open spec fn split_lines_rec(s: Seq<char>, cur: Seq<char>) -> Seq<Seq<char>>
    decreases s.len(),
{
    if s.len() == 0 {
        if cur.len() == 0 {
            Seq::empty()
        } else {
            seq![cur]
        }
    } else if s[0] == '\n' {
        seq![strip_cr(cur)] + split_lines_rec(s.skip(1), Seq::empty())
    } else {
        split_lines_rec(s.skip(1), cur.push(s[0]))
    }
}

/// Split into lines at `'\n'`, dropping a `'\r'` that stands just before
/// a `'\n'`.  A trailing terminator produces no empty final line.
pub open spec fn split_lines(s: Seq<char>) -> Seq<Seq<char>> {
    split_lines_rec(s, Seq::empty())
}

/// Executable line splitter matching `split_lines`.
pub fn split_lines_str(s: &str) -> (r: Vec<String>)
    ensures
        r@.map_values(|l: String| l@) == split_lines(s@),
{
    let n = s.unicode_len();
    let mut out: Vec<String> = Vec::new();
    let mut start: usize = 0;
    let mut i: usize = 0;
    proof {
        assert(out@.map_values(|l: String| l@) =~= Seq::<Seq<char>>::empty());
        assert(s@.skip(0) =~= s@);
        assert(s@.subrange(0, 0) =~= Seq::<char>::empty());
    }
    while i < n
        invariant
            start <= i <= n,
            n == s@.len(),
            split_lines(s@) == out@.map_values(|l: String| l@) + split_lines_rec(
                s@.skip(i as int),
                s@.subrange(start as int, i as int),
            ),
        decreases n - i,
    {
        let ghost cur = s@.subrange(start as int, i as int);
        let ghost rest = s@.skip(i as int);
        proof {
            assert(rest[0] == s@[i as int]);
            assert(rest.skip(1) =~= s@.skip(i as int + 1));
        }
        if s.get_char(i) == '\n' {
            let mut end = i;
            if end > start && s.get_char(end - 1) == '\r' {
                end = end - 1;
            }
            let line = String::from_str(s.substring_char(start, end));
            proof {
                if cur.len() > 0 && cur[cur.len() - 1] == '\r' {
                    assert(cur.take(cur.len() - 1) =~= s@.subrange(
                        start as int,
                        i as int - 1,
                    ));
                }
                assert(line@ == strip_cr(cur));
            }
            out.push(line);
            proof {
                let f = |l: String| l@;
                assert(out@.map_values(f) =~= out@.drop_last().map_values(f).push(line@));
                assert(out@.drop_last().map_values(f).push(line@) + split_lines_rec(
                    s@.skip(i as int + 1),
                    Seq::<char>::empty(),
                ) =~= out@.drop_last().map_values(f) + (seq![strip_cr(cur)] + split_lines_rec(
                    s@.skip(i as int + 1),
                    Seq::<char>::empty(),
                )));
                assert(s@.subrange(i as int + 1, i as int + 1) =~= Seq::<char>::empty());
            }
            start = i + 1;
        } else {
            proof {
                assert(cur.push(s@[i as int]) =~= s@.subrange(start as int, i as int + 1));
            }
        }
        i = i + 1;
    }
    proof {
        assert(s@.skip(n as int) =~= Seq::<char>::empty());
    }
    if start < n {
        let line = String::from_str(s.substring_char(start, n));
        out.push(line);
        proof {
            let f = |l: String| l@;
            assert(out@.map_values(f) =~= out@.drop_last().map_values(f).push(line@));
            assert(out@.drop_last().map_values(f).push(line@) =~= out@.drop_last().map_values(f)
                + seq![line@]);
        }
    }
    out
}

/// `m` occurs contiguously somewhere in `s`.
pub open spec fn has_marker(s: Seq<char>, m: Seq<char>) -> bool {
    exists|i: int| 0 <= i <= s.len() - m.len() && #[trigger] s.subrange(i, i + m.len()) == m
}

/// Substring search: whether `pat` occurs anywhere in `s`.
#[verifier::loop_isolation(false)]
pub fn str_contains(s: &str, pat: &str) -> (r: bool)
    ensures
        r == has_marker(s@, pat@),
{
    let n = s.unicode_len();
    let m = pat.unicode_len();
    if m > n {
        return false;
    }
    let mut i: usize = 0;
    while i <= n - m
        invariant
            0 <= i <= n - m + 1,
            forall|k: int| 0 <= k < i ==> #[trigger] s@.subrange(k, k + pat@.len()) != pat@,
        decreases n - m - i + 1,
    {
        let mut j: usize = 0;
        let mut all_eq = true;
        while all_eq && j < m
            invariant
                0 <= j <= m,
                i + m <= n,
                all_eq ==> forall|x: int| 0 <= x < j ==> s@[i + x] == pat@[x],
                !all_eq ==> s@.subrange(i as int, i + pat@.len()) != pat@,
            decreases (if all_eq { 1int } else { 0int }), m - j,
        {
            let cs = s.get_char(i + j);
            let cp = pat.get_char(j);
            if cs != cp {
                proof {
                    if s@.subrange(i as int, i + pat@.len()) == pat@ {
                        assert(s@.subrange(i as int, i + pat@.len())[j as int] == s@[i
                            + j as int]);
                        assert(false);
                    }
                }
                all_eq = false;
            } else {
                proof {
                    assert(s@[i + j as int] == pat@[j as int]);
                }
                j = j + 1;
            }
        }
        if all_eq {
            proof {
                assert(s@.subrange(i as int, i + pat@.len()) =~= pat@);
            }
            return true;
        }
        proof {
            if pat@.len() == 0 {
                assert(s@.subrange(i as int, i as int) =~= pat@);
            }
        }
        i = i + 1;
    }
    false
}

/// Decimal digit, by Unicode scalar value.
pub open spec fn is_digit_char(c: char) -> bool {
    48 <= c as int <= 57
}

/// Numeric value of a decimal digit.
pub open spec fn digit_val(c: char) -> int {
    c as int - 48
}

pub open spec fn all_digits(s: Seq<char>) -> bool {
    forall|i: int| 0 <= i < s.len() ==> is_digit_char(s[i])
}

/// Value of a digit string read most-significant first.
pub open spec fn digits_to_int(s: Seq<char>) -> int
    decreases s.len(),
{
    if s.len() == 0 {
        0
    } else {
        digits_to_int(s.drop_last()) * 10 + digit_val(s.last())
    }
}

/// Contribution of a fraction-digit string to a centi-unit value: only
/// the first two digits count, further precision is truncated.
pub open spec fn frac2(fp: Seq<char>) -> int {
    (if fp.len() >= 1 {
        10 * digit_val(fp[0])
    } else {
        0
    }) + (if fp.len() >= 2 {
        digit_val(fp[1])
    } else {
        0
    })
}

/// Magnitude of an unsigned decimal numeral in centi-units: one or more
/// integer digits, then optionally a dot and any number of fraction
/// digits.  Anything else has no value.
pub open spec fn centi_mag(t: Seq<char>) -> Option<int> {
    match find_from(t, '.', 0) {
        None => if t.len() >= 1 && all_digits(t) {
            Some(digits_to_int(t) * 100)
        } else {
            None
        },
        Some(d) => {
            let ip = t.take(d);
            let fp = t.skip(d + 1);
            if ip.len() >= 1 && all_digits(ip) && all_digits(fp) {
                Some(digits_to_int(ip) * 100 + frac2(fp))
            } else {
                None
            }
        },
    }
}

/// Value of a decimal numeral in centi-units (hundredths), with an
/// optional leading minus sign.  A magnitude beyond `i64::MAX` has no
/// value: an absurdly large reading degrades to an absent one.
pub open spec fn centi_of(s: Seq<char>) -> Option<int> {
    let neg = s.len() > 0 && s[0] == '-';
    let t = if neg {
        s.skip(1)
    } else {
        s
    };
    match centi_mag(t) {
        None => None,
        Some(m) => if m > i64::MAX {
            None
        } else if neg {
            Some(-m)
        } else {
            Some(m)
        },
    }
}

pub proof fn lemma_digits_nonneg(s: Seq<char>)
    requires
        all_digits(s),
    ensures
        digits_to_int(s) >= 0,
    decreases s.len(),
{
    if s.len() > 0 {
        assert(all_digits(s.drop_last()));
        lemma_digits_nonneg(s.drop_last());
    }
}

/// The value of a digit string only grows as digits are appended.
pub proof fn lemma_digits_mono(s: Seq<char>, j: int)
    requires
        all_digits(s),
        0 <= j <= s.len(),
    ensures
        digits_to_int(s.take(j)) <= digits_to_int(s),
    decreases s.len(),
{
    if j < s.len() {
        assert(all_digits(s.drop_last()));
        assert(s.drop_last().take(j) =~= s.take(j));
        lemma_digits_mono(s.drop_last(), j);
        lemma_digits_nonneg(s.drop_last());
    } else {
        assert(s.take(j) =~= s);
    }
}

/// Searching in a suffix finds the same character, shifted by the offset.
pub proof fn lemma_find_skip(s: Seq<char>, c: char, off: int, i: int)
    requires
        0 <= off,
        0 <= i,
        off + i <= s.len(),
    ensures
        find_from(s, c, off + i) == match find_from(s.skip(off), c, i) {
            None => None::<int>,
            Some(k) => Some(k + off),
        },
    decreases s.len() - off - i,
{
    if off + i < s.len() {
        assert(s.skip(off)[i] == s[off + i]);
        if s[off + i] != c {
            lemma_find_skip(s, c, off, i + 1);
        }
    }
}

/// A magnitude already beyond `i64::MAX` after some of the integer
/// digits can only grow: the whole numeral has no centi-unit value.
proof fn lemma_mag_overflow(t: Seq<char>, ip: Seq<char>, fp: Seq<char>, k: int)
    requires
        centi_mag(t) is Some,
        match find_from(t, '.', 0) {
            Some(d) => ip == t.take(d) && fp == t.skip(d + 1),
            None => ip == t && fp == Seq::<char>::empty(),
        },
        0 <= k <= ip.len(),
        digits_to_int(ip.take(k)) > i64::MAX,
    ensures
        centi_mag(t).unwrap() > i64::MAX,
{
    assert(all_digits(ip));
    lemma_digits_mono(ip, k);
    lemma_digits_nonneg(ip);
    if find_from(t, '.', 0) is Some {
        assert(all_digits(fp));
        if fp.len() >= 1 {
            assert(is_digit_char(fp[0]));
        }
        if fp.len() >= 2 {
            assert(is_digit_char(fp[1]));
        }
    }
    assert(frac2(fp) >= 0);
    assert(digits_to_int(ip) * 100 >= digits_to_int(ip));
}

/// Parse a decimal numeral into signed centi-units, exactly as
/// `centi_of` describes.
#[verifier::loop_isolation(false)]
#[verifier::rlimit(60)]
pub fn parse_centi(s: &str) -> (r: Option<i64>)
    ensures
        r is Some <==> centi_of(s@) is Some,
        r matches Some(x) ==> centi_of(s@) == Some(x as int),
{
    let n = s.unicode_len();
    let neg = n > 0 && s.get_char(0) == '-';
    let start: usize = if neg {
        1
    } else {
        0
    };
    let ghost t = s@.skip(start as int);
    let dot = find_char_from(s, '.', start);
    proof {
        lemma_find_skip(s@, '.', start as int, 0);
    }
    let ip_end: usize = match dot {
        Some(d) => d,
        None => n,
    };
    let ghost ip = s@.subrange(start as int, ip_end as int);
    let ghost fp = if find_from(t, '.', 0) is Some {
        t.skip(ip_end - start + 1)
    } else {
        Seq::<char>::empty()
    };
    proof {
        if !neg {
            assert(t =~= s@);
        }
        match find_from(t, '.', 0) {
            None => {
                assert(ip =~= t);
            },
            Some(dd) => {
                assert(dd == ip_end - start);
                assert(ip =~= t.take(dd));
            },
        }
    }
    if ip_end == start {
        return None;
    }
    let mut acc: i64 = 0;
    let mut i: usize = start;
    proof {
        assert(ip.take(0) =~= Seq::<char>::empty());
    }
    while i < ip_end
        invariant
            start <= i <= ip_end <= n,
            n == s@.len(),
            ip == s@.subrange(start as int, ip_end as int),
            t == s@.skip(start as int),
            fp == (if find_from(t, '.', 0) is Some {
                t.skip(ip_end - start + 1)
            } else {
                Seq::<char>::empty()
            }),
            match find_from(t, '.', 0) {
                Some(d) => ip == t.take(d) && fp == t.skip(d + 1),
                None => ip == t,
            },
            all_digits(ip.take(i - start)),
            acc == digits_to_int(ip.take(i - start)),
            acc >= 0,
        decreases ip_end - i,
    {
        let c = s.get_char(i);
        let cv = c as u32;
        proof {
            assert(ip[i - start] == s@[i as int]);
        }
        if cv < 48 || cv > 57 {
            proof {
                assert(!is_digit_char(ip[i - start]));
            }
            return None;
        }
        let d = (cv - 48) as i64;
        proof {
            assert(ip.take(i - start + 1).drop_last() =~= ip.take(i - start));
            assert(ip.take(i - start + 1).last() == ip[i - start]);
            assert(forall|j: int|
                0 <= j < i - start + 1 ==> is_digit_char(#[trigger] ip.take(i - start + 1)[j]));
        }
        let ghost k = i - start + 1;
        let a10 = match acc.checked_mul(10) {
            Some(v) => v,
            None => {
                proof {
                    assert(digits_to_int(ip.take(k)) > i64::MAX);
                    if centi_mag(t) is Some {
                        lemma_mag_overflow(t, ip, fp, k);
                    }
                }
                return None;
            },
        };
        let a = match a10.checked_add(d) {
            Some(v) => v,
            None => {
                proof {
                    assert(digits_to_int(ip.take(k)) > i64::MAX);
                    if centi_mag(t) is Some {
                        lemma_mag_overflow(t, ip, fp, k);
                    }
                }
                return None;
            },
        };
        acc = a;
        i = i + 1;
    }
    proof {
        assert(ip.take(ip_end - start) =~= ip);
    }
    let mut frac: i64 = 0;
    if let Some(dpos) = dot {
        proof {
            assert(fp =~= s@.subrange(dpos + 1, n as int));
            assert(fp.take(0) =~= Seq::<char>::empty());
        }
        let mut j: usize = dpos + 1;
        while j < n
            invariant
                dpos + 1 <= j <= n,
                n == s@.len(),
                fp == s@.subrange(dpos + 1, n as int),
                all_digits(fp.take(j - dpos - 1)),
                frac == frac2(fp.take(j - dpos - 1)),
                0 <= frac <= 99,
            decreases n - j,
        {
            let c = s.get_char(j);
            let cv = c as u32;
            proof {
                assert(fp[j - dpos - 1] == s@[j as int]);
            }
            if cv < 48 || cv > 57 {
                proof {
                    assert(!is_digit_char(fp[j - dpos - 1]));
                }
                return None;
            }
            proof {
                assert(forall|x: int|
                    0 <= x < j - dpos ==> is_digit_char(#[trigger] fp.take(j - dpos)[x]));
                assert(fp.take(j - dpos)[0] == fp[0]);
                if j - dpos >= 2 {
                    assert(fp.take(j - dpos)[1] == fp[1]);
                }
            }
            if j == dpos + 1 {
                frac = 10 * ((cv - 48) as i64);
            } else if j == dpos + 2 {
                frac = frac + ((cv - 48) as i64);
            }
            j = j + 1;
        }
        proof {
            assert(fp.take(n - dpos - 1) =~= fp);
        }
    }
    proof {
        assert(centi_mag(t) == Some(digits_to_int(ip) * 100 + frac2(fp)));
        lemma_digits_nonneg(ip);
    }
    let m100 = match acc.checked_mul(100) {
        Some(v) => v,
        None => {
            proof {
                assert(centi_mag(t).unwrap() > i64::MAX);
            }
            return None;
        },
    };
    let mag = match m100.checked_add(frac) {
        Some(v) => v,
        None => {
            proof {
                assert(centi_mag(t).unwrap() > i64::MAX);
            }
            return None;
        },
    };
    if neg {
        Some(-mag)
    } else {
        Some(mag)
    }
}

} // verus!
