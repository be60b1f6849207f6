//! Text helpers: the `~meta~` notation in descriptions, and decimal numbers.
use vstd::prelude::*;
use vstd::string::*;

verus! {

/// The first position at or after `p` that holds a `~`, or the length of `s`
/// where there is none.
pub open spec fn next_tilde_from(s: Seq<char>, p: int) -> int
    decreases s.len() - p,
{
    if p >= s.len() {
        s.len() as int
    } else if s[p] == '~' {
        p
    } else {
        next_tilde_from(s, p + 1)
    }
}

/// `next_tilde_from` finds the first `~` at or after `p`.
pub proof fn lemma_next_tilde_from(s: Seq<char>, p: int)
    requires
        0 <= p,
    ensures
        p <= s.len() ==> p <= next_tilde_from(s, p) <= s.len(),
        p > s.len() ==> next_tilde_from(s, p) == s.len(),
        next_tilde_from(s, p) < s.len() ==> s[next_tilde_from(s, p)] == '~',
        forall|k: int| p <= k < next_tilde_from(s, p) ==> s[k] != '~',
    decreases s.len() - p,
{
    if p < s.len() && s[p] != '~' {
        lemma_next_tilde_from(s, p + 1);
    }
}

/// `s[p..]` with every `~...~` section removed: the tildes are paired from the
/// left, and a last unpaired `~` stays with what follows it.
pub open spec fn strip_tilde_sections_from(s: Seq<char>, p: int) -> Seq<char>
    decreases s.len() - p,
{
    if p < 0 || p >= s.len() {
        Seq::empty()
    } else {
        let i = next_tilde_from(s, p);
        let j = next_tilde_from(s, i + 1);
        proof {
            lemma_next_tilde_from(s, p);
            lemma_next_tilde_from(s, i + 1);
        }
        if i >= s.len() || j >= s.len() {
            s.subrange(p, s.len() as int)
        } else {
            s.subrange(p, i) + strip_tilde_sections_from(s, j + 1)
        }
    }
}

/// The text between the first two `~`, if there are two.
pub open spec fn first_tilde_section(s: Seq<char>) -> Option<Seq<char>> {
    let i = next_tilde_from(s, 0);
    let j = next_tilde_from(s, i + 1);
    if i < s.len() && j < s.len() {
        Some(s.subrange(i + 1, j))
    } else {
        None
    }
}

/// What `split_meta_from_str` gives: the first `~...~` section (without the
/// tildes) as the meta text, and the text with every such section removed; or
/// an empty meta text and the text itself where there is no such section.
pub open spec fn split_meta_spec(s: Seq<char>) -> (Seq<char>, Seq<char>) {
    match first_tilde_section(s) {
        Some(m) => (m, strip_tilde_sections_from(s, 0)),
        None => (Seq::empty(), s),
    }
}

/// A text in which no two positions hold a `~`.
pub open spec fn at_most_one_tilde(t: Seq<char>) -> bool {
    forall|a: int, b: int| 0 <= a < b < t.len() ==> !(t[a] == '~' && t[b] == '~')
}

/// A text with no `~` in it.
pub open spec fn tilde_free(t: Seq<char>) -> bool {
    forall|a: int| 0 <= a < t.len() ==> t[a] != '~'
}

/// Removing the `~...~` sections from `s[p..]` leaves at most one `~`.
pub proof fn lemma_strip_leaves_at_most_one_tilde(s: Seq<char>, p: int)
    ensures
        at_most_one_tilde(strip_tilde_sections_from(s, p)),
    decreases s.len() - p,
{
    if p < 0 || p >= s.len() {
    } else {
        let i = next_tilde_from(s, p);
        let j = next_tilde_from(s, i + 1);
        lemma_next_tilde_from(s, p);
        lemma_next_tilde_from(s, i + 1);
        let r = strip_tilde_sections_from(s, p);
        if i >= s.len() || j >= s.len() {
            assert forall|a: int, b: int| 0 <= a < b < r.len() implies !(r[a] == '~' && r[b]
                == '~') by {
                assert(r[a] == s[p + a]);
                assert(r[b] == s[p + b]);
            }
        } else {
            lemma_strip_leaves_at_most_one_tilde(s, j + 1);
            let head = s.subrange(p, i);
            let tail = strip_tilde_sections_from(s, j + 1);
            assert(r == head + tail);
            assert forall|a: int, b: int| 0 <= a < b < r.len() implies !(r[a] == '~' && r[b]
                == '~') by {
                if a < head.len() {
                    assert(r[a] == s[p + a]);
                } else {
                    assert(r[a] == tail[a - head.len()]);
                    assert(r[b] == tail[b - head.len()]);
                }
            }
        }
    }
}

/// The meta text split off a description holds no `~`, and what remains of
/// the description holds at most one.
pub proof fn lemma_split_meta_tildes(s: Seq<char>)
    ensures
        tilde_free(split_meta_spec(s).0),
        first_tilde_section(s) is Some ==> at_most_one_tilde(split_meta_spec(s).1),
        first_tilde_section(s) is None ==> at_most_one_tilde(s),
{
    let i = next_tilde_from(s, 0);
    let j = next_tilde_from(s, i + 1);
    lemma_next_tilde_from(s, 0);
    lemma_next_tilde_from(s, i + 1);
    lemma_strip_leaves_at_most_one_tilde(s, 0);
    if i < s.len() && j < s.len() {
        let m = s.subrange(i + 1, j);
        assert forall|a: int| 0 <= a < m.len() implies m[a] != '~' by {
            assert(m[a] == s[i + 1 + a]);
        }
    } else {
        assert forall|a: int, b: int| 0 <= a < b < s.len() implies !(s[a] == '~' && s[b]
            == '~') by {
            if s[a] == '~' && s[b] == '~' {
                assert(i <= a);
                assert(j <= b);
            }
        }
    }
}

proof fn lemma_next_tilde_shift(x: Seq<char>, y: Seq<char>, p: int)
    requires
        0 <= p <= y.len(),
    ensures
        next_tilde_from(x + y, x.len() + p) == x.len() + next_tilde_from(y, p),
    decreases y.len() - p,
{
    let s = x + y;
    if p < y.len() {
        assert(s[x.len() + p] == y[p]);
        if y[p] != '~' {
            lemma_next_tilde_shift(x, y, p + 1);
        }
    }
}

proof fn lemma_strip_shift(x: Seq<char>, y: Seq<char>, p: int)
    requires
        0 <= p,
    ensures
        strip_tilde_sections_from(x + y, x.len() + p) == strip_tilde_sections_from(y, p),
    decreases y.len() - p,
{
    let s = x + y;
    if p < y.len() {
        let i = next_tilde_from(y, p);
        let j = next_tilde_from(y, i + 1);
        lemma_next_tilde_from(y, p);
        lemma_next_tilde_from(y, i + 1);
        lemma_next_tilde_shift(x, y, p);
        if i < y.len() {
            lemma_next_tilde_shift(x, y, i + 1);
        } else {
            lemma_next_tilde_from(s, x.len() + i + 1);
        }
        if i >= y.len() || j >= y.len() {
            assert(s.subrange(x.len() + p, s.len() as int) =~= y.subrange(p, y.len() as int));
        } else {
            assert(s.subrange(x.len() + p, x.len() + i) =~= y.subrange(p, i));
            lemma_strip_shift(x, y, j + 1);
        }
    }
}

/// The `~meta~` notation: in a text with no `~` before its first `~...~`
/// section, that section's inside is the meta text, and the rest is the text
/// before it followed by the text after it with its own sections removed. A
/// text with at most one `~` has no meta text and stays as it is.
pub proof fn lemma_split_meta_sections(a: Seq<char>, m: Seq<char>, b: Seq<char>)
    requires
        tilde_free(a),
        tilde_free(m),
    ensures
        split_meta_spec(a + seq!['~'] + m + seq!['~'] + b).0 == m,
        split_meta_spec(a + seq!['~'] + m + seq!['~'] + b).1 == a + strip_tilde_sections_from(b, 0),
        at_most_one_tilde(b) ==> split_meta_spec(b) == (Seq::<char>::empty(), b),
        at_most_one_tilde(b) ==> strip_tilde_sections_from(b, 0) == b,
{
    let head = a + seq!['~'] + m + seq!['~'];
    let s = head + b;
    assert(s =~= a + seq!['~'] + m + seq!['~'] + b);
    let i = a.len() as int;
    let j = i + 1 + m.len();
    lemma_next_tilde_from(s, 0);
    assert(s[i] == '~');
    assert forall|k: int| 0 <= k < i implies s[k] != '~' by {
        assert(s[k] == a[k]);
    }
    assert(next_tilde_from(s, 0) == i);
    lemma_next_tilde_from(s, i + 1);
    assert(s[j] == '~');
    assert forall|k: int| i + 1 <= k < j implies s[k] != '~' by {
        assert(s[k] == m[k - i - 1]);
    }
    assert(next_tilde_from(s, i + 1) == j);
    assert(s.subrange(i + 1, j) =~= m);
    assert(s.subrange(0, i) =~= a);
    lemma_strip_shift(head, b, 0);
    assert(head.len() == j + 1);
    if at_most_one_tilde(b) {
        lemma_next_tilde_from(b, 0);
        let p = next_tilde_from(b, 0);
        if p < b.len() {
            lemma_next_tilde_from(b, p + 1);
            if next_tilde_from(b, p + 1) < b.len() {
                assert(b[p] == '~' && b[next_tilde_from(b, p + 1)] == '~');
            }
        }
        assert(b.subrange(0, b.len() as int) =~= b);
    }
}

/// The position of the next `~` at or after `p`.
fn find_tilde_from(s: &str, n: usize, p: usize) -> (r: usize)
    requires
        n == s@.len(),
        p <= n,
    ensures
        r == next_tilde_from(s@, p as int),
        p <= r <= n,
{
    let mut k = p;
    while k < n
        invariant
            n == s@.len(),
            p <= k <= n,
            next_tilde_from(s@, k as int) == next_tilde_from(s@, p as int),
        decreases n - k,
    {
        if s.get_char(k) == '~' {
            return k;
        }
        k = k + 1;
    }
    k
}

/// Splits the meta text out of a description: `"desk ~room 4~ by the window"`
/// gives `("room 4", "desk  by the window")`.
pub fn split_meta_from_str(s: &str) -> (r: (String, String))
    ensures
        (r.0@, r.1@) == split_meta_spec(s@),
{
    let n = s.unicode_len();
    let i = find_tilde_from(s, n, 0);
    if i >= n {
        return (String::new(), s.to_owned());
    }
    let j = find_tilde_from(s, n, i + 1);
    if j >= n {
        return (String::new(), s.to_owned());
    }
    let meta = s.substring_char(i + 1, j).to_owned();
    let mut rest = String::new();
    let mut pos: usize = 0;
    let mut a = i;
    let mut b = j;
    proof {
        assert(strip_tilde_sections_from(s@, 0) == s@.subrange(0, i as int)
            + strip_tilde_sections_from(s@, j + 1));
    }
    // The section [a, b] is the next one to remove from s[pos..].
    loop
        invariant
            n == s@.len(),
            pos <= a < b < n,
            a == next_tilde_from(s@, pos as int),
            b == next_tilde_from(s@, a + 1),
            rest@ + strip_tilde_sections_from(s@, pos as int) == strip_tilde_sections_from(s@, 0),
            i == next_tilde_from(s@, 0),
            j == next_tilde_from(s@, i + 1),
            i < n && j < n,
            meta@ == s@.subrange(i + 1, j as int),
        decreases n - pos,
    {
        proof {
            lemma_next_tilde_from(s@, pos as int);
            lemma_next_tilde_from(s@, a + 1);
        }
        let ghost before = rest@;
        rest.append(s.substring_char(pos, a));
        pos = b + 1;
        proof {
            assert(rest@ + strip_tilde_sections_from(s@, pos as int) == strip_tilde_sections_from(s@, 0));
        }
        if pos >= n {
            proof {
                assert(strip_tilde_sections_from(s@, pos as int) == Seq::<char>::empty());
                assert(rest@ + Seq::<char>::empty() == rest@);
            }
            return (meta, rest);
        }
        let a2 = find_tilde_from(s, n, pos);
        let b2 = if a2 < n { find_tilde_from(s, n, a2 + 1) } else { n };
        if a2 >= n || b2 >= n {
            proof {
                assert(strip_tilde_sections_from(s@, pos as int) == s@.subrange(pos as int, n as int));
            }
            rest.append(s.substring_char(pos, n));
            return (meta, rest);
        }
        proof {
            assert(strip_tilde_sections_from(s@, pos as int) == s@.subrange(pos as int, a2 as int)
                + strip_tilde_sections_from(s@, b2 + 1));
            assert(rest@ + (s@.subrange(pos as int, a2 as int) + strip_tilde_sections_from(s@, b2 + 1))
                == (rest@ + s@.subrange(pos as int, a2 as int)) + strip_tilde_sections_from(s@, b2 + 1));
        }
        a = a2;
        b = b2;
    }
}

/// The character of a decimal digit.
pub open spec fn digit_char(d: int) -> char {
    (48 + d) as char
}

/// The decimal digits of a natural number, without leading zeros.
pub open spec fn nat_decimal(n: nat) -> Seq<char>
    decreases n,
{
    if n < 10 {
        seq![digit_char(n as int)]
    } else {
        nat_decimal(n / 10).push(digit_char((n % 10) as int))
    }
}

/// The decimal form of an integer, with a leading `-` where it is negative.
pub open spec fn int_decimal(v: int) -> Seq<char> {
    if v < 0 {
        seq!['-'] + nat_decimal((-v) as nat)
    } else {
        nat_decimal(v as nat)
    }
}

/// The decimal form padded with zeros to at least two characters, as `{:02}`
/// writes it.
pub open spec fn int_decimal_width2(v: int) -> Seq<char> {
    if 0 <= v < 10 {
        seq!['0'] + int_decimal(v)
    } else {
        int_decimal(v)
    }
}

/// The text of one decimal digit.
fn digit_string(d: u32) -> (s: String)
    requires
        d < 10,
    ensures
        s@ == seq![digit_char(d as int)],
{
    match d {
        0 => {
            proof {
                reveal_strlit("0");
            }
            String::from_str("0")
        },
        1 => {
            proof {
                reveal_strlit("1");
            }
            String::from_str("1")
        },
        2 => {
            proof {
                reveal_strlit("2");
            }
            String::from_str("2")
        },
        3 => {
            proof {
                reveal_strlit("3");
            }
            String::from_str("3")
        },
        4 => {
            proof {
                reveal_strlit("4");
            }
            String::from_str("4")
        },
        5 => {
            proof {
                reveal_strlit("5");
            }
            String::from_str("5")
        },
        6 => {
            proof {
                reveal_strlit("6");
            }
            String::from_str("6")
        },
        7 => {
            proof {
                reveal_strlit("7");
            }
            String::from_str("7")
        },
        8 => {
            proof {
                reveal_strlit("8");
            }
            String::from_str("8")
        },
        _ => {
            proof {
                reveal_strlit("9");
            }
            String::from_str("9")
        },
    }
}

/// The decimal digits of a natural number, without leading zeros.
fn nat_decimal_string(n: u32) -> (s: String)
    ensures
        s@ == nat_decimal(n as nat),
    decreases n,
{
    if n < 10 {
        digit_string(n)
    } else {
        let mut s = nat_decimal_string(n / 10);
        let d = digit_string(n % 10);
        s.append(d.as_str());
        proof {
            assert(seq![digit_char((n % 10) as int)] =~= Seq::<char>::empty().push(digit_char((n % 10) as int)));
        }
        s
    }
}

/// The decimal form of a number.
pub fn decimal_string(v: i32) -> (s: String)
    ensures
        s@ == int_decimal(v as int),
{
    if v < 0 {
        let m: u32 = (0i64 - (v as i64)) as u32;
        let digits = nat_decimal_string(m);
        let minus = String::from_str("-");
        proof {
            reveal_strlit("-");
            assert(minus@ == seq!['-']);
        }
        minus.concat(digits.as_str())
    } else {
        nat_decimal_string(v as u32)
    }
}

/// The decimal form of a number padded with zeros to two characters.
pub fn decimal_string_width2(v: i32) -> (s: String)
    ensures
        s@ == int_decimal_width2(v as int),
{
    let d = decimal_string(v);
    if 0 <= v && v < 10 {
        let z = String::from_str("0");
        proof {
            reveal_strlit("0");
        }
        z.concat(d.as_str())
    } else {
        d
    }
}

} // verus!
