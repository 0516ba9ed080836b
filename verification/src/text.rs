//! Text helpers over `Seq<char>` models of strings.

use vstd::prelude::*;

verus! {

/// `needle` occurs somewhere inside `hay`.
pub open spec fn contains_text(hay: Seq<char>, needle: Seq<char>) -> bool {
    exists|i: int|
        0 <= i && i + needle.len() <= hay.len() && #[trigger] hay.subrange(i, i + needle.len())
            == needle
}

/// A text found at a known position is contained.
pub proof fn lemma_contains_at(hay: Seq<char>, needle: Seq<char>, i: int)
    requires
        0 <= i,
        i + needle.len() <= hay.len(),
        hay.subrange(i, i + needle.len()) == needle,
    ensures
        contains_text(hay, needle),
{
    assert(hay.subrange(i, i + needle.len()) == needle);
}

/// A text placed between two others is contained in the concatenation.
pub proof fn lemma_contains_middle(front: Seq<char>, needle: Seq<char>, back: Seq<char>)
    ensures
        contains_text(front + needle + back, needle),
{
    let hay = front + needle + back;
    let i = front.len() as int;
    assert(hay.subrange(i, i + needle.len()) =~= needle);
}

/// The character of a decimal digit.
pub open spec fn digit_char(d: nat) -> char {
    if d == 0 {
        '0'
    } else if d == 1 {
        '1'
    } else if d == 2 {
        '2'
    } else if d == 3 {
        '3'
    } else if d == 4 {
        '4'
    } else if d == 5 {
        '5'
    } else if d == 6 {
        '6'
    } else if d == 7 {
        '7'
    } else if d == 8 {
        '8'
    } else {
        '9'
    }
}

/// Decimal notation of a natural number, without sign or leading zeros.
pub open spec fn decimal(n: nat) -> Seq<char>
    decreases n,
{
    if n < 10 {
        seq![digit_char(n)]
    } else {
        decimal(n / 10).push(digit_char(n % 10))
    }
}

/// The one-character text of a decimal digit.
fn digit_text(d: u16) -> (s: &'static str)
    requires
        d < 10,
    ensures
        s@ == seq![digit_char(d as nat)],
{
    if d == 0 {
        proof {
            reveal_strlit("0");
        }
        "0"
    } else if d == 1 {
        proof {
            reveal_strlit("1");
        }
        "1"
    } else if d == 2 {
        proof {
            reveal_strlit("2");
        }
        "2"
    } else if d == 3 {
        proof {
            reveal_strlit("3");
        }
        "3"
    } else if d == 4 {
        proof {
            reveal_strlit("4");
        }
        "4"
    } else if d == 5 {
        proof {
            reveal_strlit("5");
        }
        "5"
    } else if d == 6 {
        proof {
            reveal_strlit("6");
        }
        "6"
    } else if d == 7 {
        proof {
            reveal_strlit("7");
        }
        "7"
    } else if d == 8 {
        proof {
            reveal_strlit("8");
        }
        "8"
    } else {
        proof {
            reveal_strlit("9");
        }
        "9"
    }
}

/// Appends the decimal notation of `n` to `out`.
pub fn push_decimal(out: &mut String, n: u16)
    ensures
        final(out)@ == old(out)@ + decimal(n as nat),
    decreases n,
{
    if n >= 10 {
        push_decimal(out, n / 10);
    }
    let d = digit_text(n % 10);
    out.append(d);
    proof {
        if n >= 10 {
            assert(decimal(n as nat) == decimal((n / 10) as nat).push(digit_char((n % 10) as nat)));
        }
    }
    assert(final(out)@ =~= old(out)@ + decimal(n as nat));
}

/// Character-wise equality of two texts.
pub fn same_text(a: &str, b: &str) -> (r: bool)
    ensures
        r == (a@ == b@),
{
    let n = a.unicode_len();
    if n != b.unicode_len() {
        return false;
    }
    let mut i: usize = 0;
    while i < n
        invariant
            n == a@.len(),
            n == b@.len(),
            i <= n,
            forall|j: int| 0 <= j < i ==> a@[j] == b@[j],
        decreases n - i,
    {
        if a.get_char(i) != b.get_char(i) {
            return false;
        }
        i = i + 1;
    }
    assert(a@ =~= b@);
    true
}

/// The text with every trailing `/` removed.
pub open spec fn trim_trailing_slashes(s: Seq<char>) -> Seq<char>
    decreases s.len(),
{
    if s.len() > 0 && s.last() == '/' {
        trim_trailing_slashes(s.drop_last())
    } else {
        s
    }
}

/// What trimming leaves is a prefix of the input, never ends in `/`, and
/// only `/` was cut off.
pub proof fn lemma_trim_shape(s: Seq<char>)
    ensures
        trim_trailing_slashes(s).len() <= s.len(),
        trim_trailing_slashes(s) == s.subrange(0, trim_trailing_slashes(s).len() as int),
        trim_trailing_slashes(s).len() == 0 || trim_trailing_slashes(s).last() != '/',
        forall|j: int|
            trim_trailing_slashes(s).len() <= j < s.len() ==> s[j] == '/',
    decreases s.len(),
{
    if s.len() > 0 && s.last() == '/' {
        lemma_trim_shape(s.drop_last());
        let t = s.drop_last();
        assert forall|j: int| trim_trailing_slashes(s).len() <= j < s.len() implies s[j] == '/' by {
            if j < t.len() {
                assert(t[j] == s[j]);
            }
        }
        assert(t.subrange(0, trim_trailing_slashes(t).len() as int) =~= s.subrange(
            0,
            trim_trailing_slashes(t).len() as int,
        ));
    } else {
        assert(s == s.subrange(0, s.len() as int));
    }
}

/// Removes every trailing `/`, as `str::trim_end_matches('/')` does.
pub fn trim_end_slashes(s: &str) -> (r: String)
    ensures
        r@ == trim_trailing_slashes(s@),
{
    let mut n = s.unicode_len();
    proof {
        lemma_trim_prefix_step(s@, n as int);
    }
    while n > 0 && s.get_char(n - 1) == '/'
        invariant
            n <= s@.len(),
            trim_trailing_slashes(s@) == trim_trailing_slashes(s@.subrange(0, n as int)),
        decreases n,
    {
        proof {
            let p = s@.subrange(0, n as int);
            assert(p.drop_last() =~= s@.subrange(0, n - 1));
        }
        n = n - 1;
    }
    let kept = s.substring_char(0, n);
    proof {
        let p = s@.subrange(0, n as int);
        assert(kept@ == p);
    }
    String::from_str(kept)
}

proof fn lemma_trim_prefix_step(s: Seq<char>, n: int)
    requires
        n == s.len(),
    ensures
        trim_trailing_slashes(s) == trim_trailing_slashes(s.subrange(0, n)),
{
    assert(s.subrange(0, n) =~= s);
}

} // verus!
