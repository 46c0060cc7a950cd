//! Small operations on text that the parsers and the classifier share.

use vstd::prelude::*;
use vstd::string::*;

verus! {

/// The length of the comparison operator that `s` begins with: 2 for `>=`
/// and `<=`, 1 for `=`, `>`, `<`, `~` and `^`, and 0 where `s` begins with
/// none.
pub open spec fn operator_len(s: Seq<char>) -> int {
    if s.len() >= 2 && (s[0] == '>' || s[0] == '<') && s[1] == '=' {
        2
    } else if s.len() >= 1 && (s[0] == '=' || s[0] == '>' || s[0] == '<' || s[0] == '~' || s[0]
        == '^') {
        1
    } else {
        0
    }
}

/// The first place of `s` from `k` on that holds no space.
pub open spec fn skip_spaces(s: Seq<char>, k: int) -> int
    decreases s.len() - k,
{
    if 0 <= k < s.len() && s[k] == ' ' {
        skip_spaces(s, k + 1)
    } else {
        k
    }
}

/// Where the version number of a declared range begins: at the start of
/// the text, or directly behind the leading comparison operator and its
/// spaces.
pub open spec fn number_start(s: Seq<char>) -> int {
    if operator_len(s) == 0 {
        0
    } else {
        skip_spaces(s, operator_len(s))
    }
}

/// `s` without the `v` that stands directly before its version number, and
/// `s` itself where none stands there. Only one `v` is taken away.
pub open spec fn strip_v(s: Seq<char>) -> Seq<char> {
    let k = number_start(s);
    if 0 <= k < s.len() && s[k] == 'v' {
        s.take(k) + s.skip(k + 1)
    } else {
        s
    }
}

/// Whether `p` is what may stand before the version number of a range:
/// nothing, or a comparison operator and spaces behind it.
pub open spec fn is_range_prefix(p: Seq<char>) -> bool {
    p.len() == 0 || (operator_len(p) > 0 && forall|i: int|
        operator_len(p) <= i < p.len() ==> p[i] == ' ')
}

/// `s` from its first character that is not `v` on.
pub open spec fn trim_v(s: Seq<char>) -> Seq<char>
    decreases s.len(),
{
    if s.len() > 0 && s[0] == 'v' {
        trim_v(s.drop_first())
    } else {
        s
    }
}

/// The order of names: character by character, by code point; where one
/// name is the beginning of the other, the shorter one comes first.
pub open spec fn name_le(a: Seq<char>, b: Seq<char>) -> bool
    decreases a.len(),
{
    if a.len() == 0 {
        true
    } else if b.len() == 0 {
        false
    } else if a[0] == b[0] {
        name_le(a.drop_first(), b.drop_first())
    } else {
        (a[0] as int) < (b[0] as int)
    }
}

/// The length of the comparison operator that a text begins with.
fn leading_operator_len(s: &str, n: usize) -> (r: usize)
    requires
        n == s@.len(),
    ensures
        r == operator_len(s@),
{
    if n == 0 {
        return 0;
    }
    let first: char = s.get_char(0);
    if (first == '>' || first == '<') && n >= 2 && s.get_char(1) == '=' {
        2
    } else if first == '=' || first == '>' || first == '<' || first == '~' || first == '^' {
        1
    } else {
        0
    }
}

/// Takes the `v` that stands directly before the version number of a
/// declared range: at the start of the text, or behind the leading
/// comparison operator and its spaces. Only one `v` is taken.
pub fn strip_v_prefix(s: &str) -> (r: String)
    ensures
        r@ == strip_v(s@),
{
    let n: usize = s.unicode_len();
    let mut k: usize = leading_operator_len(s, n);
    if k > 0 {
        while k < n && s.get_char(k) == ' '
            invariant
                0 < k <= n,
                n == s@.len(),
                skip_spaces(s@, operator_len(s@)) == skip_spaces(s@, k as int),
            decreases n - k,
        {
            k += 1;
        }
    }
    if k < n && s.get_char(k) == 'v' {
        let mut stripped = String::from_str(s.substring_char(0, k));
        stripped.append(s.substring_char(k + 1, n));
        proof {
            assert(s@.subrange(0, k as int) =~= s@.take(k as int));
            assert(s@.subrange(k as int + 1, n as int) =~= s@.skip(k as int + 1));
        }
        stripped
    } else {
        String::from_str(s)
    }
}

/// Takes every leading `v` from a version that a registry lists.
pub fn trim_v_prefix(s: &str) -> (r: &str)
    ensures
        r@ == trim_v(s@),
{
    let n: usize = s.unicode_len();
    let mut k: usize = 0;
    proof {
        assert(s@.skip(0) =~= s@);
    }
    while k < n && s.get_char(k) == 'v'
        invariant
            k <= n,
            n == s@.len(),
            trim_v(s@) == trim_v(s@.skip(k as int)),
        decreases n - k,
    {
        proof {
            assert(s@.skip(k as int).drop_first() =~= s@.skip(k as int + 1));
        }
        k += 1;
    }
    proof {
        assert(s@.subrange(k as int, n as int) =~= s@.skip(k as int));
    }
    s.substring_char(k, n)
}

/// Whether two texts hold the same characters.
pub fn same_text(a: &str, b: &str) -> (r: bool)
    ensures
        r == (a@ == b@),
{
    let n: usize = a.unicode_len();
    if n != b.unicode_len() {
        return false;
    }
    let mut i: usize = 0;
    while i < n
        invariant
            i <= n,
            n == a@.len(),
            n == b@.len(),
            forall|j: int| 0 <= j < i ==> a@[j] == b@[j],
        decreases n - i,
    {
        if a.get_char(i) != b.get_char(i) {
            return false;
        }
        i += 1;
    }
    proof {
        assert(a@ =~= b@);
    }
    true
}

/// Whether `s` begins with `prefix`.
pub fn starts_with(s: &str, prefix: &str) -> (r: bool)
    ensures
        r == prefix@.is_prefix_of(s@),
{
    let n: usize = prefix.unicode_len();
    if s.unicode_len() < n {
        return false;
    }
    let mut i: usize = 0;
    while i < n
        invariant
            i <= n,
            n == prefix@.len(),
            n <= s@.len(),
            forall|j: int| 0 <= j < i ==> s@[j] == prefix@[j],
        decreases n - i,
    {
        if s.get_char(i) != prefix.get_char(i) {
            return false;
        }
        i += 1;
    }
    proof {
        assert(s@.subrange(0, n as int) =~= prefix@);
    }
    true
}

/// Whether `a` comes before `b` in the order of names, or is `b`.
pub fn name_precedes_or_equals(a: &str, b: &str) -> (r: bool)
    ensures
        r == name_le(a@, b@),
{
    let n: usize = a.unicode_len();
    let m: usize = b.unicode_len();
    let mut i: usize = 0;
    proof {
        assert(a@.skip(0) =~= a@);
        assert(b@.skip(0) =~= b@);
    }
    while i < n && i < m
        invariant
            i <= n,
            i <= m,
            n == a@.len(),
            m == b@.len(),
            name_le(a@, b@) == name_le(a@.skip(i as int), b@.skip(i as int)),
        decreases n - i,
    {
        let x: char = a.get_char(i);
        let y: char = b.get_char(i);
        if x != y {
            return (x as u32) < (y as u32);
        }
        proof {
            assert(a@.skip(i as int).drop_first() =~= a@.skip(i as int + 1));
            assert(b@.skip(i as int).drop_first() =~= b@.skip(i as int + 1));
        }
        i += 1;
    }
    i == n
}

/// Every name comes before itself or is itself.
pub proof fn lemma_name_le_reflexive(a: Seq<char>)
    ensures
        name_le(a, a),
    decreases a.len(),
{
    if a.len() > 0 {
        lemma_name_le_reflexive(a.drop_first());
    }
}

/// Of two names, one comes before the other or is the other.
pub proof fn lemma_name_le_total(a: Seq<char>, b: Seq<char>)
    ensures
        name_le(a, b) || name_le(b, a),
    decreases a.len(),
{
    if a.len() > 0 && b.len() > 0 && a[0] == b[0] {
        lemma_name_le_total(a.drop_first(), b.drop_first());
    }
}

/// The order of names is transitive.
pub proof fn lemma_name_le_transitive(a: Seq<char>, b: Seq<char>, c: Seq<char>)
    requires
        name_le(a, b),
        name_le(b, c),
    ensures
        name_le(a, c),
    decreases a.len(),
{
    if a.len() > 0 && b.len() > 0 && c.len() > 0 && a[0] == b[0] && b[0] == c[0] {
        lemma_name_le_transitive(a.drop_first(), b.drop_first(), c.drop_first());
    }
}

/// The spaces behind `k` end where something else stands.
pub proof fn lemma_skip_spaces(s: Seq<char>, k: int, end: int)
    requires
        0 <= k <= end <= s.len(),
        forall|i: int| k <= i < end ==> s[i] == ' ',
        end < s.len() ==> s[end] != ' ',
    ensures
        skip_spaces(s, k) == end,
    decreases end - k,
{
    if k < end {
        lemma_skip_spaces(s, k + 1, end);
    }
}

/// A `v` directly before the version number is taken away, and nothing
/// else: behind what may stand before the number, the rest of the text
/// stays as it is.
pub proof fn lemma_strip_v_takes_the_v_before_the_number(prefix: Seq<char>, rest: Seq<char>)
    requires
        is_range_prefix(prefix),
    ensures
        strip_v(prefix + seq!['v'] + rest) == prefix + rest,
{
    let whole = prefix + seq!['v'] + rest;
    let k = prefix.len() as int;
    assert(whole[k] == 'v');
    assert forall|i: int| 0 <= i < k implies whole[i] == prefix[i] by {}
    if prefix.len() > 0 {
        assert(operator_len(whole) == operator_len(prefix));
        lemma_skip_spaces(whole, operator_len(prefix), k);
    }
    assert(number_start(whole) == k);
    assert(whole.take(k) + whole.skip(k + 1) =~= prefix + rest);
}

} // verus!
