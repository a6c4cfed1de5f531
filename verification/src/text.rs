//! Character and string helpers shared by the parser, the noun matcher and
//! the message builders: ASCII case folding, whitespace splitting, joining,
//! substring search and decimal rendering of numbers.

use vstd::prelude::*;
use vstd::string::StrSliceExecFns;
use vstd::string::StringExecFns;

verus! {

/// The characters the tokenizer treats as whitespace.
pub open spec fn is_ws(c: char) -> bool {
    c == ' ' || c == '\t' || c == '\n' || c == '\r'
}

pub fn is_ws_exec(c: char) -> (r: bool)
    ensures
        r == is_ws(c),
{
    c == ' ' || c == '\t' || c == '\n' || c == '\r'
}

/// ASCII case folding of one character: `'A'..='Z'` map to `'a'..='z'`,
/// every other character is left as it is.
pub open spec fn lower_char(c: char) -> char {
    if c == 'A' {
        'a'
    } else if c == 'B' {
        'b'
    } else if c == 'C' {
        'c'
    } else if c == 'D' {
        'd'
    } else if c == 'E' {
        'e'
    } else if c == 'F' {
        'f'
    } else if c == 'G' {
        'g'
    } else if c == 'H' {
        'h'
    } else if c == 'I' {
        'i'
    } else if c == 'J' {
        'j'
    } else if c == 'K' {
        'k'
    } else if c == 'L' {
        'l'
    } else if c == 'M' {
        'm'
    } else if c == 'N' {
        'n'
    } else if c == 'O' {
        'o'
    } else if c == 'P' {
        'p'
    } else if c == 'Q' {
        'q'
    } else if c == 'R' {
        'r'
    } else if c == 'S' {
        's'
    } else if c == 'T' {
        't'
    } else if c == 'U' {
        'u'
    } else if c == 'V' {
        'v'
    } else if c == 'W' {
        'w'
    } else if c == 'X' {
        'x'
    } else if c == 'Y' {
        'y'
    } else if c == 'Z' {
        'z'
    } else {
        c
    }
}

pub fn lower_char_exec(c: char) -> (r: char)
    ensures
        r == lower_char(c),
{
    if 'A' <= c && c <= 'Z' {
        match c {
            'A' => 'a',
            'B' => 'b',
            'C' => 'c',
            'D' => 'd',
            'E' => 'e',
            'F' => 'f',
            'G' => 'g',
            'H' => 'h',
            'I' => 'i',
            'J' => 'j',
            'K' => 'k',
            'L' => 'l',
            'M' => 'm',
            'N' => 'n',
            'O' => 'o',
            'P' => 'p',
            'Q' => 'q',
            'R' => 'r',
            'S' => 's',
            'T' => 't',
            'U' => 'u',
            'V' => 'v',
            'W' => 'w',
            'X' => 'x',
            'Y' => 'y',
            _ => 'z',
        }
    } else {
        c
    }
}

/// ASCII case folding of a whole character sequence.
pub open spec fn lower_seq(s: Seq<char>) -> Seq<char> {
    s.map_values(|c: char| lower_char(c))
}

/// Relies on `String::push`: appends exactly the given character at the end.
#[verifier::external_body]
pub fn push_char(s: &mut String, c: char)
    ensures
        final(s)@ == old(s)@.push(c),
{
    s.push(c);
}

/// Case-folded copy of a string.
pub fn lower_str(s: &str) -> (r: String)
    ensures
        r@ == lower_seq(s@),
{
    let n = s.unicode_len();
    let mut r = String::new();
    let mut i: usize = 0;
    while i < n
        invariant
            i <= n,
            n == s@.len(),
            r@ == lower_seq(s@.take(i as int)),
        decreases n - i,
    {
        let c = s.get_char(i);
        push_char(&mut r, lower_char_exec(c));
        proof {
            assert(r@ =~= lower_seq(s@.take(i + 1)));
        }
        i = i + 1;
    }
    proof {
        assert(s@.take(n as int) =~= s@);
    }
    r
}

/// Character-for-character string equality.
pub fn str_eq(a: &str, b: &str) -> (r: bool)
    ensures
        r == (a@ == b@),
{
    let na = a.unicode_len();
    let nb = b.unicode_len();
    if na != nb {
        return false;
    }
    let mut i: usize = 0;
    while i < na
        invariant
            i <= na,
            na == a@.len(),
            na == b@.len(),
            forall|m: int| 0 <= m < i ==> a@[m] == b@[m],
        decreases na - i,
    {
        if a.get_char(i) != b.get_char(i) {
            return false;
        }
        i = i + 1;
    }
    proof {
        assert(a@ =~= b@);
    }
    true
}

/// Whether two strings are equal once both are case-folded; this is the
/// name-matching rule for nouns.
pub fn eq_ignore_case(a: &str, b: &str) -> (r: bool)
    ensures
        r == (lower_seq(a@) == lower_seq(b@)),
{
    let la = lower_str(a);
    let lb = lower_str(b);
    la == lb
}

/// The decimal digit character for a value below ten.
pub open spec fn digit_char(d: int) -> char {
    if d == 0 {
        '0'
    } else if d == 1 {
        '1'
    } else if d == 2 {
        '2'
    } else if d == 3 {
        '3'
    } else if d == 4 {
        '4'
    } else if d == 5 {
        '5'
    } else if d == 6 {
        '6'
    } else if d == 7 {
        '7'
    } else if d == 8 {
        '8'
    } else {
        '9'
    }
}

/// The usual decimal rendering of a non-negative number, most significant
/// digit first, with no leading zeros (`0` itself is rendered as `"0"`).
pub open spec fn dec_str(n: int) -> Seq<char>
    decreases n,
{
    if n < 10 {
        seq![digit_char(n)]
    } else {
        dec_str(n / 10).push(digit_char(n % 10))
    }
}

pub fn digit_char_exec(d: u64) -> (c: char)
    requires
        d < 10,
    ensures
        c == digit_char(d as int),
{
    match d {
        0 => '0',
        1 => '1',
        2 => '2',
        3 => '3',
        4 => '4',
        5 => '5',
        6 => '6',
        7 => '7',
        8 => '8',
        _ => '9',
    }
}

/// Decimal rendering of a number as a `String`.
pub fn u64_to_string(n: u64) -> (r: String)
    ensures
        r@ == dec_str(n as int),
    decreases n,
{
    if n < 10 {
        let mut r = String::new();
        push_char(&mut r, digit_char_exec(n));
        proof {
            assert(r@ =~= dec_str(n as int));
        }
        r
    } else {
        let mut r = u64_to_string(n / 10);
        push_char(&mut r, digit_char_exec(n % 10));
        r
    }
}

/// Decimal rendering of an index.
pub fn usize_to_string(n: usize) -> (r: String)
    ensures
        r@ == dec_str(n as int),
{
    u64_to_string(n as u64)
}

/// Length of the longest whitespace-free prefix.
pub open spec fn nonws_len(s: Seq<char>) -> nat
    decreases s.len(),
{
    if s.len() == 0 || is_ws(s[0]) {
        0
    } else {
        1 + nonws_len(s.drop_first())
    }
}

pub proof fn lemma_nonws_len_le(s: Seq<char>)
    ensures
        nonws_len(s) <= s.len(),
    decreases s.len(),
{
    if s.len() != 0 && !is_ws(s[0]) {
        lemma_nonws_len_le(s.drop_first());
    }
}

/// The whitespace-free prefix ends exactly at the first whitespace
/// character (or at the end of the sequence).
pub proof fn lemma_nonws_len_is(s: Seq<char>, j: int)
    requires
        0 <= j <= s.len(),
        forall|m: int| 0 <= m < j ==> !is_ws(s[m]),
        j == s.len() || is_ws(s[j]),
    ensures
        nonws_len(s) == j,
    decreases j,
{
    if j == 0 {
    } else {
        lemma_nonws_len_is(s.drop_first(), j - 1);
    }
}

/// The words of a sequence: maximal whitespace-free runs, in order.
/// This is the splitting rule of the command parser.
pub open spec fn split_ws(s: Seq<char>) -> Seq<Seq<char>>
    decreases s.len(),
    via split_ws_decreases
{
    if s.len() == 0 {
        Seq::empty()
    } else if is_ws(s[0]) {
        split_ws(s.drop_first())
    } else {
        seq![s.take(nonws_len(s) as int)] + split_ws(s.skip(nonws_len(s) as int))
    }
}

#[via_fn]
proof fn split_ws_decreases(s: Seq<char>) {
    lemma_nonws_len_le(s);
}

/// Every word produced by `split_ws` is non-empty.
pub proof fn lemma_split_ws_words_nonempty(s: Seq<char>)
    ensures
        forall|k: int| 0 <= k < split_ws(s).len() ==> split_ws(s)[k].len() > 0,
    decreases s.len(),
{
    if s.len() == 0 {
    } else if is_ws(s[0]) {
        lemma_split_ws_words_nonempty(s.drop_first());
        assert forall|k: int| 0 <= k < split_ws(s).len() implies split_ws(s)[k].len() > 0 by {
            assert(split_ws(s)[k] == split_ws(s.drop_first())[k]);
        }
    } else {
        lemma_nonws_len_le(s);
        lemma_split_ws_words_nonempty(s.skip(nonws_len(s) as int));
        let rest = split_ws(s.skip(nonws_len(s) as int));
        assert(nonws_len(s) >= 1);
        assert forall|k: int| 0 <= k < split_ws(s).len() implies split_ws(s)[k].len() > 0 by {
            if k == 0 {
                assert(split_ws(s)[0] == s.take(nonws_len(s) as int));
                assert(s.take(nonws_len(s) as int).len() == nonws_len(s));
            } else {
                assert(split_ws(s)[k] == rest[k - 1]);
            }
        }
    }
}

/// Splits a string into its whitespace-separated words.
pub fn split_words(s: &str) -> (r: Vec<String>)
    ensures
        r.deep_view() == split_ws(s@),
{
    let n = s.unicode_len();
    let mut r: Vec<String> = Vec::new();
    let mut i: usize = 0;
    proof {
        assert(s@.skip(0) =~= s@);
        assert(r.deep_view() + split_ws(s@) =~= split_ws(s@));
    }
    while i < n
        invariant
            i <= n,
            n == s@.len(),
            split_ws(s@) == r.deep_view() + split_ws(s@.skip(i as int)),
        decreases n - i,
    {
        let c = s.get_char(i);
        if is_ws_exec(c) {
            proof {
                assert(s@.skip(i as int).drop_first() =~= s@.skip(i + 1));
            }
            i = i + 1;
        } else {
            let ghost u = s@.skip(i as int);
            let start = i;
            let mut w = String::new();
            i = i + 1;
            push_char(&mut w, c);
            proof {
                assert(w@ =~= s@.subrange(start as int, i as int));
            }
            while i < n && !is_ws_exec(s.get_char(i))
                invariant
                    start < i <= n,
                    n == s@.len(),
                    w@ == s@.subrange(start as int, i as int),
                    forall|m: int| start <= m < i ==> !is_ws(s@[m]),
                decreases n - i,
            {
                let c2 = s.get_char(i);
                push_char(&mut w, c2);
                proof {
                    assert(w@ =~= s@.subrange(start as int, i + 1));
                }
                i = i + 1;
            }
            proof {
                let j = i - start;
                assert forall|m: int| 0 <= m < j implies !is_ws(u[m]) by {
                    assert(u[m] == s@[start + m]);
                }
                if i < n {
                    assert(is_ws(u[j]));
                }
                lemma_nonws_len_is(u, j);
                assert(w@ =~= u.take(j));
                assert(u.skip(j) =~= s@.skip(i as int));
                assert(split_ws(u) == seq![w@] + split_ws(s@.skip(i as int)));
            }
            let ghost r0 = r.deep_view();
            r.push(w);
            proof {
                assert(r.deep_view() =~= r0 + seq![w@]);
                assert(r0 + (seq![w@] + split_ws(s@.skip(i as int))) =~= (r0 + seq![w@])
                    + split_ws(s@.skip(i as int)));
            }
        }
    }
    proof {
        assert(s@.skip(n as int) =~= Seq::<char>::empty());
        assert(r.deep_view() + Seq::<Seq<char>>::empty() =~= r.deep_view());
    }
    r
}

/// Words joined with a single space between each pair.
pub open spec fn join_sp(ts: Seq<Seq<char>>) -> Seq<char>
    decreases ts.len(),
{
    if ts.len() == 0 {
        Seq::empty()
    } else if ts.len() == 1 {
        ts[0]
    } else {
        ts[0] + seq![' '] + join_sp(ts.drop_first())
    }
}

pub proof fn lemma_join_sp_push(ts: Seq<Seq<char>>, t: Seq<char>)
    ensures
        ts.len() == 0 ==> join_sp(ts.push(t)) == t,
        ts.len() > 0 ==> join_sp(ts.push(t)) == join_sp(ts) + seq![' '] + t,
    decreases ts.len(),
{
    if ts.len() == 0 {
        assert(ts.push(t)[0] == t);
    } else if ts.len() == 1 {
        assert(ts.push(t).drop_first() =~= seq![t]);
        assert(join_sp(seq![t]) == t);
        assert(ts.push(t)[0] == ts[0]);
    } else {
        lemma_join_sp_push(ts.drop_first(), t);
        assert(ts.push(t).drop_first() =~= ts.drop_first().push(t));
        assert(ts.push(t)[0] == ts[0]);
    }
}

/// Joins the words from position `from` on, separated by single spaces.
pub fn join_words(ws: &Vec<String>, from: usize) -> (r: String)
    requires
        from <= ws@.len(),
    ensures
        r@ == join_sp(ws.deep_view().skip(from as int)),
{
    let ghost all = ws.deep_view().skip(from as int);
    let mut r = String::new();
    let mut i: usize = from;
    while i < ws.len()
        invariant
            from <= i <= ws@.len(),
            all == ws.deep_view().skip(from as int),
            ws.deep_view().len() == ws@.len(),
            r@ == join_sp(all.take(i - from)),
        decreases ws@.len() - i,
    {
        proof {
            assert(all.take(i + 1 - from) =~= all.take(i - from).push(ws.deep_view()[i as int]));
            lemma_join_sp_push(all.take(i - from), ws.deep_view()[i as int]);
        }
        if i == from {
            let w = ws[i].clone();
            proof {
                assert(ws.deep_view()[i as int] == ws@[i as int]@);
            }
            r = w;
        } else {
            r.append(" ");
            r.append(ws[i].as_str());
            proof {
                assert(ws.deep_view()[i as int] == ws@[i as int]@);
                reveal_strlit(" ");
                assert(" "@ =~= seq![' ']);
            }
        }
        i = i + 1;
    }
    proof {
        assert(all.take(i - from) =~= all);
    }
    r
}

/// The characters of a string, as an indexable vector.
pub fn to_chars(s: &str) -> (r: Vec<char>)
    ensures
        r@ == s@,
{
    let n = s.unicode_len();
    let mut r: Vec<char> = Vec::new();
    let mut i: usize = 0;
    while i < n
        invariant
            i <= n,
            n == s@.len(),
            r@ == s@.take(i as int),
        decreases n - i,
    {
        r.push(s.get_char(i));
        proof {
            assert(r@ =~= s@.take(i + 1));
        }
        i = i + 1;
    }
    proof {
        assert(s@.take(n as int) =~= s@);
    }
    r
}

/// A string built from a range of a character vector.
pub fn string_from_range(s: &Vec<char>, a: usize, b: usize) -> (r: String)
    requires
        a <= b <= s@.len(),
    ensures
        r@ == s@.subrange(a as int, b as int),
{
    let mut r = String::new();
    let mut i: usize = a;
    while i < b
        invariant
            a <= i <= b <= s@.len(),
            r@ == s@.subrange(a as int, i as int),
        decreases b - i,
    {
        push_char(&mut r, s[i]);
        proof {
            assert(r@ =~= s@.subrange(a as int, i + 1));
        }
        i = i + 1;
    }
    r
}

/// Length of the whitespace prefix.
pub open spec fn ws_prefix_len(s: Seq<char>) -> nat
    decreases s.len(),
{
    if s.len() == 0 || !is_ws(s[0]) {
        0
    } else {
        1 + ws_prefix_len(s.drop_first())
    }
}

/// Length of the whitespace suffix.
pub open spec fn ws_suffix_len(s: Seq<char>) -> nat
    decreases s.len(),
{
    if s.len() == 0 || !is_ws(s[s.len() - 1]) {
        0
    } else {
        1 + ws_suffix_len(s.drop_last())
    }
}

/// The sequence with leading and trailing whitespace removed.
pub open spec fn spec_trim(s: Seq<char>) -> Seq<char> {
    let a = ws_prefix_len(s) as int;
    let b = s.len() - ws_suffix_len(s) as int;
    if a < b {
        s.subrange(a, b)
    } else {
        Seq::empty()
    }
}

proof fn lemma_ws_prefix_is(s: Seq<char>, i: int)
    requires
        0 <= i <= s.len(),
        forall|m: int| 0 <= m < i ==> is_ws(s[m]),
        i == s.len() || !is_ws(s[i]),
    ensures
        ws_prefix_len(s) == i,
    decreases i,
{
    if i == 0 {
    } else {
        lemma_ws_prefix_is(s.drop_first(), i - 1);
    }
}

proof fn lemma_ws_suffix_is(s: Seq<char>, j: int)
    requires
        0 <= j <= s.len(),
        forall|m: int| j <= m < s.len() ==> is_ws(s[m]),
        j == 0 || !is_ws(s[j - 1]),
    ensures
        ws_suffix_len(s) == s.len() - j,
    decreases s.len() - j,
{
    if j == s.len() {
    } else {
        assert(s.drop_last() =~= s.subrange(0, s.len() - 1));
        lemma_ws_suffix_is(s.drop_last(), j);
    }
}

/// A copy of the string with leading and trailing whitespace removed.
pub fn trim_str(s: &str) -> (r: String)
    ensures
        r@ == spec_trim(s@),
{
    let n = s.unicode_len();
    let mut i: usize = 0;
    while i < n && is_ws_exec(s.get_char(i))
        invariant
            i <= n,
            n == s@.len(),
            forall|m: int| 0 <= m < i ==> is_ws(s@[m]),
        decreases n - i,
    {
        i = i + 1;
    }
    if i == n {
        proof {
            lemma_ws_prefix_is(s@, n as int);
        }
        return String::new();
    }
    let mut j: usize = n;
    while j > i && is_ws_exec(s.get_char(j - 1))
        invariant
            i < j <= n,
            i < n,
            n == s@.len(),
            !is_ws(s@[i as int]),
            forall|m: int| j <= m < n ==> is_ws(s@[m]),
        decreases j,
    {
        j = j - 1;
    }
    proof {
        lemma_ws_prefix_is(s@, i as int);
        lemma_ws_suffix_is(s@, j as int);
    }
    let mut r = String::new();
    let mut k: usize = i;
    while k < j
        invariant
            i <= k <= j <= n,
            n == s@.len(),
            r@ == s@.subrange(i as int, k as int),
        decreases j - k,
    {
        push_char(&mut r, s.get_char(k));
        proof {
            assert(r@ =~= s@.subrange(i as int, k + 1));
        }
        k = k + 1;
    }
    r
}

/// `n` occurs as a contiguous run inside `h` starting at position `i`.
pub open spec fn occurs_at(h: Seq<char>, n: Seq<char>, i: int) -> bool {
    0 <= i && i + n.len() <= h.len() && h.subrange(i, i + n.len()) == n
}

/// `n` occurs somewhere inside `h`.
pub open spec fn seq_contains(h: Seq<char>, n: Seq<char>) -> bool {
    exists|i: int| occurs_at(h, n, i)
}

/// Substring search, the rule the combat loop uses to recognize its
/// sub-commands.
pub fn str_contains(h: &str, n: &str) -> (r: bool)
    ensures
        r == seq_contains(h@, n@),
{
    let hl = h.unicode_len();
    let nl = n.unicode_len();
    if nl > hl {
        proof {
            assert forall|i: int| !occurs_at(h@, n@, i) by {}
        }
        return false;
    }
    if nl == 0 {
        proof {
            assert(h@.subrange(0, 0) =~= n@);
            assert(occurs_at(h@, n@, 0));
        }
        return true;
    }
    let mut i: usize = 0;
    while i <= hl - nl
        invariant
            1 <= nl <= hl,
            hl == h@.len(),
            nl == n@.len(),
            i <= hl - nl + 1,
            forall|ii: int| 0 <= ii < i ==> !occurs_at(h@, n@, ii),
        decreases hl - nl + 1 - i,
    {
        let mut j: usize = 0;
        let mut ok = true;
        while j < nl
            invariant
                i + nl <= hl,
                hl == h@.len(),
                nl == n@.len(),
                j <= nl,
                ok ==> h@.subrange(i as int, i + j) == n@.take(j as int),
                !ok ==> !occurs_at(h@, n@, i as int),
            decreases nl - j,
        {
            if ok {
                let hc = h.get_char(i + j);
                let nc = n.get_char(j);
                if hc == nc {
                    proof {
                        assert(h@.subrange(i as int, i + j + 1) =~= h@.subrange(i as int, i + j)
                            .push(h@[i + j]));
                        assert(n@.take(j + 1) =~= n@.take(j as int).push(n@[j as int]));
                    }
                } else {
                    proof {
                        if occurs_at(h@, n@, i as int) {
                            assert(h@.subrange(i as int, i + nl as int)[j as int] == n@[j as int]);
                        }
                    }
                    ok = false;
                }
            }
            j = j + 1;
        }
        if ok {
            proof {
                assert(n@.take(nl as int) =~= n@);
                assert(occurs_at(h@, n@, i as int));
            }
            return true;
        }
        i = i + 1;
    }
    proof {
        assert forall|ii: int| !occurs_at(h@, n@, ii) by {
            if occurs_at(h@, n@, ii) {
                assert(0 <= ii < i);
            }
        }
    }
    false
}

} // verus!
