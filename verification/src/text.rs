//! The few `str` operations of std that this library needs and that vstd does not specify.

use vstd::prelude::*;

verus! {

/// Whether `p` is a prefix of `s`.
pub open spec fn has_prefix(s: Seq<char>, p: Seq<char>) -> bool {
    p.len() <= s.len() && s.take(p.len() as int) == p
}

/// Calls `str::strip_prefix` with a `&str` pattern. Claims that it succeeds exactly when `prefix`
/// begins `s`, with the rest of `s`.
#[verifier::external_body]
pub(crate) fn str_strip_prefix<'a>(s: &'a str, prefix: &str) -> (r: Option<&'a str>)
    ensures
        r is Some <==> has_prefix(s@, prefix@),
        r matches Some(t) ==> t@ == s@.skip(prefix@.len() as int),
{
    s.strip_prefix(prefix)
}

/// Whether two strings hold the same characters.
pub fn str_eq(a: &str, b: &str) -> (r: bool)
    ensures
        r == (a@ == b@),
{
    a.to_owned() == b.to_owned()
}

/// A string made of the characters of `a` followed by those of `b`.
pub fn concat_str(a: &str, b: &str) -> (r: String)
    ensures
        r@ == a@ + b@,
{
    let mut s = a.to_owned();
    s.append(b);
    s
}


/// Calls `String::push`. Claims that the character is appended.
#[verifier::external_body]
pub(crate) fn string_push(s: &mut String, c: char)
    ensures
        final(s)@ == old(s)@.push(c),
{
    s.push(c);
}

/// The characters of a string.
pub fn chars_of(s: &str) -> (r: Vec<char>)
    ensures
        r@ == s@,
{
    let n = s.unicode_len();
    let mut v: Vec<char> = Vec::new();
    for i in 0..n
        invariant
            n == s@.len(),
            v@ == s@.take(i as int),
    {
        v.push(s.get_char(i));
        assert(v@ =~= s@.take(i + 1));
    }
    assert(s@.take(n as int) =~= s@);
    v
}

/// A string of the characters `v[from..to]`.
pub fn string_of(v: &Vec<char>, from: usize, to: usize) -> (r: String)
    requires
        from <= to <= v@.len(),
    ensures
        r@ == v@.subrange(from as int, to as int),
{
    let mut s = String::new();
    for i in from..to
        invariant
            to <= v@.len(),
            s@ == v@.subrange(from as int, i as int),
    {
        string_push(&mut s, v[i]);
        assert(s@ =~= v@.subrange(from as int, i + 1));
    }
    s
}

/// The string without the trailing characters `c`.
pub open spec fn trim_end(s: Seq<char>, c: char) -> Seq<char>
    decreases s.len(),
{
    if s.len() > 0 && s.last() == c {
        trim_end(s.drop_last(), c)
    } else {
        s
    }
}

/// `s` with every trailing `c` removed.
pub fn trim_end_char(s: &str, c: char) -> (r: String)
    ensures
        r@ == trim_end(s@, c),
{
    let v = chars_of(s);
    let mut n = v.len();
    assert(v@.take(n as int) =~= v@);
    while n > 0 && v[n - 1] == c
        invariant
            n <= v@.len(),
            trim_end(v@, c) == trim_end(v@.take(n as int), c),
        decreases n,
    {
        assert(v@.take(n as int).drop_last() =~= v@.take(n - 1));
        n = n - 1;
    }
    assert(v@.subrange(0, n as int) =~= v@.take(n as int));
    string_of(&v, 0, n)
}

/// The index of the first `c` in `s`, if any.
pub open spec fn first_index(s: Seq<char>, c: char) -> Option<int> {
    if exists|i: int| 0 <= i < s.len() && s[i] == c {
        Some(choose|i: int| 0 <= i < s.len() && s[i] == c && forall|j: int| 0 <= j < i ==> s[j] != c)
    } else {
        None
    }
}

/// `s` split around its first `c`, if it has one.
pub open spec fn split_once(s: Seq<char>, c: char) -> Option<(Seq<char>, Seq<char>)> {
    match first_index(s, c) {
        Some(i) => Some((s.take(i), s.skip(i + 1))),
        None => None,
    }
}

/// Splits `s` around its first `c`.
pub fn split_once_char(s: &str, c: char) -> (r: Option<(String, String)>)
    ensures
        match r {
            Some((a, b)) => split_once(s@, c) == Some((a@, b@)),
            None => split_once(s@, c) is None,
        },
{
    let v = chars_of(s);
    let n = v.len();
    let mut i: usize = 0;
    while i < n && v[i] != c
        invariant
            n == v@.len(),
            i <= n,
            forall|j: int| 0 <= j < i ==> v@[j] != c,
        decreases n - i,
    {
        i = i + 1;
    }
    if i == n {
        return None;
    }
    proof {
        assert(v@[i as int] == c);
        let k = choose|k: int| 0 <= k < s@.len() && s@[k] == c && forall|j: int| 0 <= j < k ==> s@[j] != c;
        assert(k == i);
    }
    let a = string_of(&v, 0, i);
    let b = string_of(&v, i + 1, n);
    assert(a@ =~= s@.take(i as int));
    assert(b@ =~= s@.skip(i + 1));
    Some((a, b))
}

/// The pieces of `s` between the separators `c`, with the piece still being read: the state of
/// a left-to-right scan.
pub open spec fn scan_pieces(s: Seq<char>, c: char) -> (Seq<Seq<char>>, Seq<char>)
    decreases s.len(),
{
    if s.len() == 0 {
        (Seq::empty(), Seq::empty())
    } else {
        let (done, cur) = scan_pieces(s.drop_last(), c);
        if s.last() == c {
            (if cur.len() > 0 { done.push(cur) } else { done }, Seq::empty())
        } else {
            (done, cur.push(s.last()))
        }
    }
}

/// The non-empty pieces of `s` between the separators `c`.
pub open spec fn nonempty_pieces(s: Seq<char>, c: char) -> Seq<Seq<char>> {
    let (done, cur) = scan_pieces(s, c);
    if cur.len() > 0 {
        done.push(cur)
    } else {
        done
    }
}

/// The non-empty pieces of `s` between the separators `c`.
pub fn split_nonempty(s: &str, c: char) -> (r: Vec<String>)
    ensures
        r@.len() == nonempty_pieces(s@, c).len(),
        forall|i: int| 0 <= i < r@.len() ==> #[trigger] r@[i]@ == nonempty_pieces(s@, c)[i],
{
    let v = chars_of(s);
    let n = v.len();
    let mut done: Vec<String> = Vec::new();
    let mut cur = String::new();
    for i in 0..n
        invariant
            n == v@.len(),
            v@ == s@,
            done@.len() == scan_pieces(v@.take(i as int), c).0.len(),
            forall|j: int| 0 <= j < done@.len() ==> #[trigger] done@[j]@ == scan_pieces(v@.take(i as int), c).0[j],
            cur@ == scan_pieces(v@.take(i as int), c).1,
    {
        assert(v@.take(i + 1).drop_last() =~= v@.take(i as int));
        if v[i] == c {
            if cur.unicode_len() > 0 {
                let piece = cur;
                done.push(piece);
            }
            cur = String::new();
        } else {
            string_push(&mut cur, v[i]);
        }
    }
    assert(v@.take(n as int) =~= s@);
    if cur.unicode_len() > 0 {
        done.push(cur);
    }
    done
}

/// The decimal digits of a natural number.
pub open spec fn decimal_chars(n: nat) -> Seq<char>
    decreases n,
{
    if n < 10 {
        seq![(n + 48) as char]
    } else {
        decimal_chars(n / 10).push(((n % 10) + 48) as char)
    }
}

/// The decimal text of a number, as `u64::to_string` writes it.
pub fn u64_text(n: u64) -> (r: String)
    ensures
        r@ == decimal_chars(n as nat),
    decreases n,
{
    let mut s = if n >= 10 {
        u64_text(n / 10)
    } else {
        String::new()
    };
    let d: u8 = (n % 10) as u8;
    let c: char = (48 + d) as char;
    string_push(&mut s, c);
    proof {
        if n < 10 {
            assert(s@ =~= decimal_chars(n as nat));
        }
    }
    s
}

} // verus!
