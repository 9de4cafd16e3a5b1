//! Character-level text helpers shared by the rest of the library.
use vstd::prelude::*;
use vstd::string::*;

verus! {

broadcast use vstd::string::group_string_axioms;

/// Unicode `White_Space` characters (the set that `char::is_whitespace` accepts).
pub open spec fn is_white_space(c: char) -> bool {
    let u = c as u32;
    ||| 0x09 <= u <= 0x0D
    ||| u == 0x20
    ||| u == 0x85
    ||| u == 0xA0
    ||| u == 0x1680
    ||| 0x2000 <= u <= 0x200A
    ||| u == 0x2028
    ||| u == 0x2029
    ||| u == 0x202F
    ||| u == 0x205F
    ||| u == 0x3000
}

/// `s` without its leading white space.
pub open spec fn trim_start_ws(s: Seq<char>) -> Seq<char>
    decreases s.len(),
{
    if s.len() > 0 && is_white_space(s[0]) {
        trim_start_ws(s.drop_first())
    } else {
        s
    }
}

/// `s` without its trailing white space.
pub open spec fn trim_end_ws(s: Seq<char>) -> Seq<char>
    decreases s.len(),
{
    if s.len() > 0 && is_white_space(s.last()) {
        trim_end_ws(s.drop_last())
    } else {
        s
    }
}

/// `s` without white space at either end.
pub open spec fn trim_ws(s: Seq<char>) -> Seq<char> {
    trim_end_ws(trim_start_ws(s))
}

/// `s` without any run of `ch` at its end.
pub open spec fn trim_end_char(s: Seq<char>, ch: char) -> Seq<char>
    decreases s.len(),
{
    if s.len() > 0 && s.last() == ch {
        trim_end_char(s.drop_last(), ch)
    } else {
        s
    }
}

/// Exactly the characters that `char::is_whitespace` accepts.
pub fn is_white_space_char(c: char) -> (r: bool)
    ensures
        r == is_white_space(c),
{
    let u = c as u32;
    (0x09 <= u && u <= 0x0D) || u == 0x20 || u == 0x85 || u == 0xA0 || u == 0x1680
        || (0x2000 <= u && u <= 0x200A) || u == 0x2028 || u == 0x2029 || u == 0x202F
        || u == 0x205F || u == 0x3000
}

proof fn lemma_trim_start_skip(s: Seq<char>, a: int)
    requires
        0 <= a <= s.len(),
        forall|i: int| 0 <= i < a ==> is_white_space(#[trigger] s[i]),
        a < s.len() ==> !is_white_space(s[a]),
    ensures
        trim_start_ws(s) == s.skip(a),
    decreases a,
{
    if a == 0 {
        assert(s.skip(0) =~= s);
    } else {
        let t = s.drop_first();
        assert forall|i: int| 0 <= i < a - 1 implies is_white_space(#[trigger] t[i]) by {
            assert(t[i] == s[i + 1]);
        }
        lemma_trim_start_skip(t, a - 1);
        assert(t.skip(a - 1) =~= s.skip(a));
    }
}

proof fn lemma_trim_end_take(s: Seq<char>, b: int)
    requires
        0 <= b <= s.len(),
        forall|i: int| b <= i < s.len() ==> is_white_space(#[trigger] s[i]),
        b > 0 ==> !is_white_space(s[b - 1]),
    ensures
        trim_end_ws(s) == s.take(b),
    decreases s.len() - b,
{
    if b == s.len() {
        assert(s.take(b) =~= s);
    } else {
        let t = s.drop_last();
        assert forall|i: int| b <= i < t.len() implies is_white_space(#[trigger] t[i]) by {
            assert(t[i] == s[i]);
        }
        lemma_trim_end_take(t, b);
        assert(t.take(b) =~= s.take(b));
    }
}

proof fn lemma_trim_end_char_take(s: Seq<char>, ch: char, b: int)
    requires
        0 <= b <= s.len(),
        forall|i: int| b <= i < s.len() ==> #[trigger] s[i] == ch,
        b > 0 ==> s[b - 1] != ch,
    ensures
        trim_end_char(s, ch) == s.take(b),
    decreases s.len() - b,
{
    if b == s.len() {
        assert(s.take(b) =~= s);
    } else {
        let t = s.drop_last();
        assert forall|i: int| b <= i < t.len() implies #[trigger] t[i] == ch by {
            assert(t[i] == s[i]);
        }
        lemma_trim_end_char_take(t, ch, b);
        assert(t.take(b) =~= s.take(b));
    }
}

/// Trimming a character from the end leaves no such character last, and
/// trimming again changes nothing.
pub proof fn lemma_trim_end_char_settles(s: Seq<char>, ch: char)
    ensures
        trim_end_char(s, ch).len() == 0 || trim_end_char(s, ch).last() != ch,
        trim_end_char(trim_end_char(s, ch), ch) == trim_end_char(s, ch),
        trim_end_char(s, ch).len() <= s.len(),
        trim_end_char(s, ch) == s.take(trim_end_char(s, ch).len() as int),
    decreases s.len(),
{
    if s.len() > 0 && s.last() == ch {
        lemma_trim_end_char_settles(s.drop_last(), ch);
        let t = trim_end_char(s.drop_last(), ch);
        assert(s.drop_last().take(t.len() as int) =~= s.take(t.len() as int));
    } else {
        assert(s.take(s.len() as int) =~= s);
    }
}

/// `s` with white space removed at both ends, as `str::trim` does.
pub fn trim_white_space(s: &str) -> (r: String)
    ensures
        r@ == trim_ws(s@),
{
    let n = s.unicode_len();
    let mut first: usize = n;
    let mut end: usize = 0;
    let mut i: usize = 0;
    while i < n
        invariant
            n == s@.len(),
            i <= n,
            first <= n,
            end <= i,
            first < n ==> first < i && !is_white_space(s@[first as int]),
            first == n ==> forall|k: int| 0 <= k < i ==> is_white_space(#[trigger] s@[k]),
            forall|k: int| 0 <= k < first && k < i ==> is_white_space(#[trigger] s@[k]),
            end > 0 ==> !is_white_space(s@[end - 1]),
            forall|k: int| end <= k < i ==> is_white_space(#[trigger] s@[k]),
            first < n ==> first < end,
        decreases n - i,
    {
        let c = s.get_char(i);
        if !is_white_space_char(c) {
            if first == n {
                first = i;
            }
            end = i + 1;
        }
        i = i + 1;
    }
    proof {
        let ghost a: int = if first == n { n as int } else { first as int };
        lemma_trim_start_skip(s@, a);
        let t = s@.skip(a);
        if first < n {
            assert forall|k: int| end - a <= k < t.len() implies is_white_space(#[trigger] t[k]) by {
                assert(t[k] == s@[k + a]);
            }
            assert(t[end - a - 1] == s@[end - 1]);
            lemma_trim_end_take(t, end - a);
            assert(t.take(end - a) =~= s@.subrange(first as int, end as int));
        } else {
            lemma_trim_end_take(t, 0);
            assert(t.take(0) =~= s@.subrange(n as int, n as int));
        }
    }
    if first == n {
        String::new()
    } else {
        let sub = s.substring_char(first, end);
        String::from_str(sub)
    }
}

/// Whether `s` is empty once white space is trimmed from both ends.
pub fn is_blank(s: &str) -> (r: bool)
    ensures
        r == (trim_ws(s@).len() == 0),
{
    let t = trim_white_space(s);
    t.as_str().unicode_len() == 0
}

/// `s` with every trailing `ch` removed, as `str::trim_end_matches(ch)` does.
pub fn trim_end_matching(s: &str, ch: char) -> (r: String)
    ensures
        r@ == trim_end_char(s@, ch),
{
    let n = s.unicode_len();
    let mut b: usize = n;
    while b > 0 && s.get_char(b - 1) == ch
        invariant
            n == s@.len(),
            b <= n,
            forall|i: int| b <= i < n ==> #[trigger] s@[i] == ch,
        decreases b,
    {
        b = b - 1;
    }
    proof {
        lemma_trim_end_char_take(s@, ch, b as int);
        assert(s@.take(b as int) =~= s@.subrange(0, b as int));
    }
    let sub = s.substring_char(0, b);
    String::from_str(sub)
}

} // verus!
