//! Text helpers over the characters of strings: comparing, building,
//! splitting into lines and writing numbers in decimal.
use vstd::prelude::*;

verus! {

/// Calls `String::push`: appends `c` at the end of `s`.
#[verifier::external_body]
fn push_char(s: &mut String, c: char)
    ensures
        final(s)@ == old(s)@.push(c),
{
    s.push(c);
}

/// The characters of `s`, in order.
pub fn chars_of(s: &str) -> (v: Vec<char>)
    ensures
        v@ == s@,
{
    let mut v: Vec<char> = Vec::new();
    for c in it: s.chars()
        invariant
            v@ == it.seq().take(it.index() as int),
    {
        v.push(c);
    }
    v
}


/// A string with the characters of `v`.
pub fn string_from_chars(v: &Vec<char>) -> (s: String)
    ensures
        s@ == v@,
{
    let mut s = String::new();
    let mut i: usize = 0;
    while i < v.len()
        invariant
            i <= v.len(),
            s@ == v@.take(i as int),
        decreases v.len() - i,
    {
        push_char(&mut s, v[i]);
        proof {
            assert(v@.take(i + 1) == v@.take(i as int).push(v@[i as int]));
        }
        i = i + 1;
    }
    proof {
        assert(v@.take(v.len() as int) == v@);
    }
    s
}

/// Whether two sequences of characters are equal.
pub fn chars_equal(a: &Vec<char>, b: &Vec<char>) -> (r: bool)
    ensures
        r == (a@ == b@),
{
    if a.len() != b.len() {
        return false;
    }
    let mut i: usize = 0;
    while i < a.len()
        invariant
            i <= a.len(),
            a.len() == b.len(),
            forall|j: int| 0 <= j < i ==> a@[j] == b@[j],
        decreases a.len() - i,
    {
        if a[i] != b[i] {
            return false;
        }
        i = i + 1;
    }
    proof {
        assert(a@ =~= b@);
    }
    true
}

/// Whether two strings have the same characters.
pub fn str_equal(a: &str, b: &str) -> (r: bool)
    ensures
        r == (a@ == b@),
{
    let va = chars_of(a);
    let vb = chars_of(b);
    chars_equal(&va, &vb)
}

/// The character of the decimal digit `d`.
pub open spec fn digit_char(d: int) -> char {
    if d == 0 { '0' } else if d == 1 { '1' } else if d == 2 { '2' } else if d == 3 { '3' }
    else if d == 4 { '4' } else if d == 5 { '5' } else if d == 6 { '6' } else if d == 7 { '7' }
    else if d == 8 { '8' } else { '9' }
}

/// The decimal writing of `n`, without leading zeros.
pub open spec fn decimal(n: nat) -> Seq<char>
    decreases n,
{
    if n < 10 {
        seq![digit_char(n as int)]
    } else {
        decimal(n / 10).push(digit_char((n % 10) as int))
    }
}

fn digit(d: u64) -> (c: char)
    requires
        d < 10,
    ensures
        c == digit_char(d as int),
{
    if d == 0 { '0' } else if d == 1 { '1' } else if d == 2 { '2' } else if d == 3 { '3' }
    else if d == 4 { '4' } else if d == 5 { '5' } else if d == 6 { '6' } else if d == 7 { '7' }
    else if d == 8 { '8' } else { '9' }
}

/// Appends the decimal writing of `n` to `s`.
pub fn push_decimal(s: &mut String, n: u64)
    ensures
        final(s)@ == old(s)@ + decimal(n as nat),
    decreases n,
{
    if n >= 10 {
        push_decimal(s, n / 10);
    }
    push_char(s, digit(n % 10));
    proof {
        if n < 10 {
            assert(n % 10 == n);
        }
    }
}

/// The decimal writing of `n`.
pub fn decimal_string(n: u64) -> (s: String)
    ensures
        s@ == decimal(n as nat),
{
    let mut s = String::new();
    push_decimal(&mut s, n);
    proof {
        assert(Seq::<char>::empty() + decimal(n as nat) == decimal(n as nat));
    }
    s
}

/// The decimal writing of the integer `n`, with a minus sign when negative.
pub open spec fn signed_decimal(n: int) -> Seq<char> {
    if n < 0 { seq!['-'] + decimal((-n) as nat) } else { decimal(n as nat) }
}

/// Appends the decimal writing of `n` to `s`, with a minus sign when
/// negative.
pub fn push_signed_decimal(s: &mut String, n: i32)
    ensures
        final(s)@ == old(s)@ + signed_decimal(n as int),
{
    if n < 0 {
        push_char(s, '-');
        push_decimal(s, (-(n as i64)) as u64);
        proof {
            assert(final(s)@ =~= old(s)@ + signed_decimal(n as int));
        }
    } else {
        push_decimal(s, n as u64);
    }
}

/// Appends the characters of `t` to `s`.
pub fn push_str(s: &mut String, t: &str)
    ensures
        final(s)@ == old(s)@ + t@,
{
    let v = chars_of(t);
    let mut i: usize = 0;
    let ghost start = s@;
    while i < v.len()
        invariant
            i <= v.len(),
            v@ == t@,
            s@ == start + v@.take(i as int),
        decreases v.len() - i,
    {
        push_char(s, v[i]);
        proof {
            assert(v@.take(i + 1) == v@.take(i as int).push(v@[i as int]));
        }
        i = i + 1;
    }
    proof {
        assert(v@.take(v.len() as int) == v@);
    }
}

/// The pieces of `s` between the occurrences of `sep`, as `str::split`
/// gives them: one more piece than there are separators.
pub open spec fn split_on(s: Seq<char>, sep: char) -> Seq<Seq<char>>
    decreases s.len(),
{
    if s.len() == 0 {
        seq![Seq::<char>::empty()]
    } else {
        let ls = split_on(s.drop_last(), sep);
        if s.last() == sep {
            ls.push(Seq::<char>::empty())
        } else {
            ls.update(ls.len() - 1, ls.last().push(s.last()))
        }
    }
}

/// The pieces of `s` between the line feeds, as `str::split('\n')` gives
/// them: one more piece than there are line feeds.
pub open spec fn split_lines(s: Seq<char>) -> Seq<Seq<char>> {
    split_on(s, '\n')
}

/// There is always at least one piece.
pub(crate) proof fn lemma_split_on_nonempty(s: Seq<char>, sep: char)
    ensures
        split_on(s, sep).len() >= 1,
    decreases s.len(),
{
    if s.len() > 0 {
        lemma_split_on_nonempty(s.drop_last(), sep);
    }
}

/// The largest length in `ls`, 0 for no element.
pub open spec fn max_len(ls: Seq<Seq<char>>) -> nat
    decreases ls.len(),
{
    if ls.len() == 0 {
        0
    } else {
        let m = max_len(ls.drop_last());
        if ls.last().len() > m { ls.last().len() } else { m }
    }
}

/// The number of lines of `s` and the length of its longest line, in
/// characters.
pub fn line_stats(s: &str) -> (r: (usize, usize))
    requires
        s@.len() < usize::MAX,
    ensures
        r.0 == split_lines(s@).len(),
        r.1 == max_len(split_lines(s@)),
{
    let v = chars_of(s);
    let mut count: usize = 1;
    let mut best: usize = 0;
    let mut cur: usize = 0;
    let mut i: usize = 0;
    proof {
        assert(v@.take(0) =~= Seq::<char>::empty());
        assert(split_lines(Seq::<char>::empty()).drop_last() =~= Seq::<Seq<char>>::empty());
    }
    while i < v.len()
        invariant
            i <= v.len(),
            v@ == s@,
            v@.len() < usize::MAX,
            count == split_lines(v@.take(i as int)).len(),
            split_lines(v@.take(i as int)).len() >= 1,
            cur == split_lines(v@.take(i as int)).last().len(),
            best == max_len(split_lines(v@.take(i as int)).drop_last()),
            count <= i + 1,
            cur <= i,
            best <= i,
        decreases v.len() - i,
    {
        let c = v[i];
        let ghost pre = v@.take(i as int);
        let ghost post = v@.take(i + 1);
        proof {
            assert(post.drop_last() =~= pre);
            assert(post.last() == c);
        }
        let ghost ls = split_lines(pre);
        if c == '\n' {
            proof {
                assert(split_lines(post) == ls.push(Seq::<char>::empty()));
                assert(split_lines(post).drop_last() =~= ls);
                assert(ls =~= ls.drop_last().push(ls.last()));
            }
            if cur > best {
                best = cur;
            }
            count = count + 1;
            cur = 0;
        } else {
            proof {
                let nl = ls.update(ls.len() - 1, ls.last().push(c));
                assert(split_lines(post) == nl);
                assert(nl.drop_last() =~= ls.drop_last());
            }
            cur = cur + 1;
        }
        i = i + 1;
    }
    proof {
        assert(v@.take(v.len() as int) =~= v@);
        let ls = split_lines(v@);
        assert(ls =~= ls.drop_last().push(ls.last()));
    }
    if cur > best {
        best = cur;
    }
    (count, best)
}


/// Whether `pat` occurs in `s` at position `i`.
pub open spec fn occurs_at(s: Seq<char>, pat: Seq<char>, i: int) -> bool {
    0 <= i && i + pat.len() <= s.len() && s.subrange(i, i + pat.len()) == pat
}

/// Whether `pat` occurs in `s`.
pub open spec fn contains_seq(s: Seq<char>, pat: Seq<char>) -> bool {
    exists|i: int| occurs_at(s, pat, i)
}

/// Whether `pat` occurs in `s`.
pub fn contains_str(s: &str, pat: &str) -> (r: bool)
    ensures
        r == contains_seq(s@, pat@),
{
    let sv = chars_of(s);
    let pv = chars_of(pat);
    if pv.len() > sv.len() {
        proof {
            assert forall|i: int| !occurs_at(s@, pat@, i) by {}
        }
        return false;
    }
    let mut i: usize = 0;
    while i <= sv.len() - pv.len()
        invariant
            sv@ == s@,
            pv@ == pat@,
            pv.len() <= sv.len(),
            i <= sv.len() - pv.len() + 1,
            forall|k: int| 0 <= k < i ==> !occurs_at(s@, pat@, k),
        decreases sv.len() - pv.len() + 1 - i,
    {
        let mut j: usize = 0;
        let mut ok = true;
        while j < pv.len()
            invariant
                sv@ == s@,
                pv@ == pat@,
                i + pv.len() <= sv.len(),
                j <= pv.len(),
                ok == forall|k: int| 0 <= k < j ==> sv@[i + k] == pv@[k],
            decreases pv.len() - j,
        {
            if sv[i + j] != pv[j] {
                ok = false;
            }
            j = j + 1;
        }
        if ok {
            proof {
                assert forall|k: int| 0 <= k < pat@.len() implies s@.subrange(i as int, i + pat@.len())[k] == pat@[k] by {
                    assert(sv@[i + k] == pv@[k]);
                }
                assert(s@.subrange(i as int, i + pat@.len()) =~= pat@);
                assert(occurs_at(s@, pat@, i as int));
            }
            return true;
        }
        proof {
            assert(!occurs_at(s@, pat@, i as int)) by {
                if occurs_at(s@, pat@, i as int) {
                    assert forall|k: int| 0 <= k < pv.len() implies sv@[i + k] == pv@[k] by {
                        assert(s@.subrange(i as int, i + pat@.len())[k] == s@[i + k]);
                    }
                }
            }
        }
        i = i + 1;
    }
    proof {
        assert forall|k: int| !occurs_at(s@, pat@, k) by {
            if 0 <= k && k < i {
            }
        }
    }
    false
}

/// Whether `c` occurs in `s`.
pub fn contains_char(s: &str, c: char) -> (r: bool)
    ensures
        r == s@.contains(c),
{
    let v = chars_of(s);
    let mut i: usize = 0;
    while i < v.len()
        invariant
            i <= v.len(),
            v@ == s@,
            forall|k: int| 0 <= k < i ==> v@[k] != c,
        decreases v.len() - i,
    {
        if v[i] == c {
            return true;
        }
        i = i + 1;
    }
    false
}

} // verus!
