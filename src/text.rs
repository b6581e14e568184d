use vstd::prelude::*;

verus! {

/// Relies on `String::push`: appends one character at the end.
#[verifier::external_body]
pub(crate) fn push_char(s: &mut String, c: char)
    ensures
        final(s)@ == old(s)@.push(c),
{
    s.push(c)
}

/// The decimal digit character for `d < 10`.
pub open spec fn digit_char(d: nat) -> char {
    if d == 0 { '0' }
    else if d == 1 { '1' }
    else if d == 2 { '2' }
    else if d == 3 { '3' }
    else if d == 4 { '4' }
    else if d == 5 { '5' }
    else if d == 6 { '6' }
    else if d == 7 { '7' }
    else if d == 8 { '8' }
    else { '9' }
}

/// Decimal representation of `n`, without leading zeros.
pub open spec fn decimal(n: nat) -> Seq<char>
    decreases n,
{
    if n < 10 {
        seq![digit_char(n)]
    } else {
        decimal(n / 10).push(digit_char(n % 10))
    }
}

fn digit(d: usize) -> (c: char)
    requires
        d < 10,
    ensures
        c == digit_char(d as nat),
{
    if d == 0 { '0' }
    else if d == 1 { '1' }
    else if d == 2 { '2' }
    else if d == 3 { '3' }
    else if d == 4 { '4' }
    else if d == 5 { '5' }
    else if d == 6 { '6' }
    else if d == 7 { '7' }
    else if d == 8 { '8' }
    else { '9' }
}

/// Appends the decimal representation of `n` to `s`.
pub fn push_decimal(s: &mut String, n: usize)
    ensures
        final(s)@ == old(s)@ + decimal(n as nat),
    decreases n,
{
    if n >= 10 {
        push_decimal(s, n / 10);
    }
    push_char(s, digit(n % 10));
    assert(final(s)@ =~= old(s)@ + decimal(n as nat));
}


/// The character sequences of a sequence of strings.
pub open spec fn string_views(v: Seq<String>) -> Seq<Seq<char>> {
    v.map_values(|s: String| s@)
}

pub proof fn lemma_string_views_push(s: Seq<String>, x: String)
    ensures
        string_views(s.push(x)) == string_views(s).push(x@),
{
    assert(string_views(s.push(x)) =~= string_views(s).push(x@));
}

pub proof fn lemma_string_views_prefix(s: Seq<String>, i: int)
    requires
        0 <= i < s.len(),
    ensures
        string_views(s.subrange(0, i + 1)) == string_views(s.subrange(0, i)).push(s[i]@),
{
    assert(s.subrange(0, i + 1) =~= s.subrange(0, i).push(s[i]));
    lemma_string_views_push(s.subrange(0, i), s[i]);
}

/// Whether `w` is one of `words`.
pub fn contains_word(words: &Vec<String>, w: &String) -> (r: bool)
    ensures
        r == string_views(words@).contains(w@),
{
    let mut i: usize = 0;
    while i < words.len()
        invariant
            i <= words.len(),
            forall|k: int| 0 <= k < i ==> words@[k]@ != w@,
        decreases words.len() - i,
    {
        if words[i] == *w {
            assert(string_views(words@)[i as int] == w@);
            return true;
        }
        i = i + 1;
    }
    assert forall|k: int| 0 <= k < string_views(words@).len() implies string_views(words@)[k]
        != w@ by {
        assert(string_views(words@)[k] == words@[k]@);
    }
    false
}


/// `s` with every occurrence of `p` removed, matching from the left without overlap.
pub open spec fn remove_all(s: Seq<char>, p: Seq<char>) -> Seq<char>
    decreases s.len(),
{
    if s.len() == 0 {
        s
    } else if p.len() > 0 && p.len() <= s.len() && s.subrange(0, p.len() as int) == p {
        remove_all(s.subrange(p.len() as int, s.len() as int), p)
    } else {
        seq![s[0]] + remove_all(s.subrange(1, s.len() as int), p)
    }
}

/// The characters of `s`.
pub fn chars_of(s: &str) -> (r: Vec<char>)
    ensures
        r@ == s@,
{
    let n = s.unicode_len();
    let mut r: Vec<char> = Vec::new();
    let mut i: usize = 0;
    while i < n
        invariant
            n == s@.len(),
            i <= n,
            r@ == s@.subrange(0, i as int),
        decreases n - i,
    {
        r.push(s.get_char(i));
        i = i + 1;
        assert(r@ =~= s@.subrange(0, i as int));
    }
    assert(r@ =~= s@);
    r
}

fn matches_at(c: &Vec<char>, i: usize, p: &Vec<char>) -> (r: bool)
    requires
        i + p@.len() <= c@.len(),
    ensures
        r == (c@.subrange(i as int, i + p@.len()) == p@),
{
    let cl = c.len();
    let mut k: usize = 0;
    while k < p.len()
        invariant
            cl == c@.len(),
            i + p@.len() <= c@.len(),
            k <= p@.len(),
            forall|m: int| 0 <= m < k ==> c@[i + m] == p@[m],
        decreases p@.len() - k,
    {
        if c[i + k] != p[k] {
            assert(c@.subrange(i as int, i + p@.len())[k as int] != p@[k as int]);
            return false;
        }
        k = k + 1;
    }
    assert(c@.subrange(i as int, i + p@.len()) =~= p@);
    true
}

/// `s` with every occurrence of `p` removed, as `str::replace(p, "")` does.
pub fn remove_pattern(s: &String, p: &str) -> (r: String)
    ensures
        r@ == remove_all(s@, p@),
{
    let c = chars_of(s.as_str());
    let pc = chars_of(p);
    let n = c.len();
    let mut out = String::new();
    let mut i: usize = 0;
    assert(c@.subrange(0, n as int) =~= c@);
    assert(out@ + remove_all(c@, pc@) =~= remove_all(c@, pc@));
    while i < n
        invariant
            n == c@.len(),
            c@ == s@,
            pc@ == p@,
            i <= n,
            out@ + remove_all(c@.subrange(i as int, n as int), pc@) == remove_all(c@, pc@),
        decreases n - i,
    {
        let rest = Ghost(c@.subrange(i as int, n as int));
        if pc.len() > 0 && pc.len() <= n - i && matches_at(&c, i, &pc) {
            assert(rest@.subrange(0, pc@.len() as int) =~= c@.subrange(i as int, i + pc@.len()));
            assert(rest@.subrange(pc@.len() as int, rest@.len() as int) =~= c@.subrange(
                i + pc@.len(),
                n as int,
            ));
            i = i + pc.len();
        } else {
            if pc.len() > 0 && pc.len() <= n - i {
                assert(rest@.subrange(0, pc@.len() as int) =~= c@.subrange(i as int, i + pc@.len()));
            }
            assert(rest@.subrange(1, rest@.len() as int) =~= c@.subrange(i + 1, n as int));
            let ghost before = out@;
            push_char(&mut out, c[i]);
            assert(out@ + remove_all(c@.subrange(i + 1, n as int), pc@) =~= before + (seq![c@[i as int]]
                + remove_all(c@.subrange(i + 1, n as int), pc@)));
            i = i + 1;
        }
    }
    assert(c@.subrange(n as int, n as int) =~= Seq::<char>::empty());
    assert(out@ + remove_all(Seq::<char>::empty(), pc@) =~= out@);
    out
}

} // verus!
