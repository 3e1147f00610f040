//! Character-level text model: whitespace, trimming and token extraction,
//! with verified scanning helpers used by the detector and the classifier.

use vstd::prelude::*;
use vstd::string::StrSliceExecFns;
use vstd::string::StringExecFns;

verus! {

/// The whitespace characters this library recognizes: blank, tab, line feed
/// and carriage return.
pub open spec fn is_space_char(c: char) -> bool {
    c == ' ' || c == '\t' || c == '\n' || c == '\r'
}

/// Whether a character is whitespace.
pub fn is_space(c: char) -> (r: bool)
    ensures
        r == is_space_char(c),
{
    c == ' ' || c == '\t' || c == '\n' || c == '\r'
}

/// The input with its leading whitespace removed.
pub open spec fn trim_start(s: Seq<char>) -> Seq<char>
    decreases s.len(),
{
    if s.len() == 0 {
        s
    } else if is_space_char(s[0]) {
        trim_start(s.skip(1))
    } else {
        s
    }
}

/// The input with its trailing whitespace removed.
pub open spec fn trim_end(s: Seq<char>) -> Seq<char>
    decreases s.len(),
{
    if s.len() == 0 {
        s
    } else if is_space_char(s.last()) {
        trim_end(s.drop_last())
    } else {
        s
    }
}

/// The input with whitespace removed from both ends.
pub open spec fn trimmed(s: Seq<char>) -> Seq<char> {
    trim_end(trim_start(s))
}

/// The longest prefix of the input free of whitespace characters.
pub open spec fn head_until_space(s: Seq<char>) -> Seq<char>
    decreases s.len(),
{
    if s.len() == 0 {
        s
    } else if is_space_char(s[0]) {
        Seq::empty()
    } else {
        seq![s[0]] + head_until_space(s.skip(1))
    }
}

/// The first whitespace-delimited token of the input: leading whitespace is
/// skipped, and the token runs until the next whitespace character.
pub open spec fn first_token(s: Seq<char>) -> Seq<char> {
    head_until_space(trim_start(s))
}

/// The prefix of the input before its first blank character. Unlike
/// `first_token`, nothing is skipped first, and only the blank (not tab or
/// newline) delimits.
pub open spec fn head_until_blank(s: Seq<char>) -> Seq<char>
    decreases s.len(),
{
    if s.len() == 0 {
        s
    } else if s[0] == ' ' {
        Seq::empty()
    } else {
        seq![s[0]] + head_until_blank(s.skip(1))
    }
}

/// Dropping a run of leading whitespace computes `trim_start`.
pub proof fn lemma_trim_start_is_skip(s: Seq<char>, i: int)
    requires
        0 <= i <= s.len(),
        forall|k: int| 0 <= k < i ==> is_space_char(s[k]),
        i == s.len() || !is_space_char(s[i]),
    ensures
        trim_start(s) == s.skip(i),
    decreases i,
{
    if i == 0 {
        assert(s.skip(0) =~= s);
    } else {
        assert(is_space_char(s[0]));
        let t = s.skip(1);
        assert forall|k: int| 0 <= k < i - 1 implies is_space_char(t[k]) by {
            assert(t[k] == s[k + 1]);
        }
        if i < s.len() {
            assert(t[i - 1] == s[i]);
        }
        lemma_trim_start_is_skip(t, i - 1);
        assert(t.skip(i - 1) =~= s.skip(i));
    }
}

/// Dropping a run of trailing whitespace computes `trim_end`.
pub proof fn lemma_trim_end_is_take(s: Seq<char>, j: int)
    requires
        0 <= j <= s.len(),
        forall|k: int| j <= k < s.len() ==> is_space_char(s[k]),
        j == 0 || !is_space_char(s[j - 1]),
    ensures
        trim_end(s) == s.take(j),
    decreases s.len(),
{
    if j == s.len() {
        assert(s.take(j) =~= s);
    } else {
        assert(is_space_char(s[s.len() - 1]));
        let t = s.drop_last();
        assert forall|k: int| j <= k < t.len() implies is_space_char(t[k]) by {
            assert(t[k] == s[k]);
        }
        lemma_trim_end_is_take(t, j);
        assert(t.take(j) =~= s.take(j));
    }
}

/// Taking characters up to the first whitespace computes `head_until_space`.
pub proof fn lemma_head_until_space_is_take(s: Seq<char>, k: int)
    requires
        0 <= k <= s.len(),
        forall|m: int| 0 <= m < k ==> !is_space_char(s[m]),
        k == s.len() || is_space_char(s[k]),
    ensures
        head_until_space(s) == s.take(k),
    decreases s.len(),
{
    if k == 0 {
        assert(s.take(0) =~= Seq::<char>::empty());
    } else {
        assert(!is_space_char(s[0]));
        let t = s.skip(1);
        assert forall|m: int| 0 <= m < k - 1 implies !is_space_char(t[m]) by {
            assert(t[m] == s[m + 1]);
        }
        if k < s.len() {
            assert(t[k - 1] == s[k]);
        }
        lemma_head_until_space_is_take(t, k - 1);
        assert(seq![s[0]] + t.take(k - 1) =~= s.take(k));
    }
}

/// Taking characters up to the first blank computes `head_until_blank`.
pub proof fn lemma_head_until_blank_is_take(s: Seq<char>, k: int)
    requires
        0 <= k <= s.len(),
        forall|m: int| 0 <= m < k ==> s[m] != ' ',
        k == s.len() || s[k] == ' ',
    ensures
        head_until_blank(s) == s.take(k),
    decreases s.len(),
{
    if k == 0 {
        assert(s.take(0) =~= Seq::<char>::empty());
    } else {
        assert(s[0] != ' ');
        let t = s.skip(1);
        assert forall|m: int| 0 <= m < k - 1 implies t[m] != ' ' by {
            assert(t[m] == s[m + 1]);
        }
        if k < s.len() {
            assert(t[k - 1] == s[k]);
        }
        lemma_head_until_blank_is_take(t, k - 1);
        assert(seq![s[0]] + t.take(k - 1) =~= s.take(k));
    }
}

/// Index of the first character that is not whitespace, or the length if
/// every character is.
pub fn scan_start(s: &str) -> (i: usize)
    ensures
        0 <= i <= s@.len(),
        forall|k: int| 0 <= k < i ==> is_space_char(s@[k]),
        i < s@.len() ==> !is_space_char(s@[i as int]),
{
    let n = s.unicode_len();
    let mut i: usize = 0;
    while i < n && is_space(s.get_char(i))
        invariant
            n == s@.len(),
            0 <= i <= n,
            forall|k: int| 0 <= k < i ==> is_space_char(s@[k]),
        decreases n - i,
    {
        i = i + 1;
    }
    i
}

/// Index of the first whitespace character at or after `from`, or the length
/// if there is none.
pub fn scan_token_end(s: &str, from: usize) -> (k: usize)
    requires
        from <= s@.len(),
    ensures
        from <= k <= s@.len(),
        forall|m: int| from <= m < k ==> !is_space_char(s@[m]),
        k < s@.len() ==> is_space_char(s@[k as int]),
{
    let n = s.unicode_len();
    let mut k: usize = from;
    while k < n && !is_space(s.get_char(k))
        invariant
            n == s@.len(),
            from <= k <= n,
            forall|m: int| from <= m < k ==> !is_space_char(s@[m]),
        decreases n - k,
    {
        k = k + 1;
    }
    k
}

/// Index one past the last character that is not whitespace, scanning from
/// the right, given that the character at `from` is not whitespace.
pub fn scan_end(s: &str, from: usize) -> (j: usize)
    requires
        from < s@.len(),
        !is_space_char(s@[from as int]),
    ensures
        from < j <= s@.len(),
        forall|k: int| j <= k < s@.len() ==> is_space_char(s@[k]),
        !is_space_char(s@[j - 1]),
{
    let n = s.unicode_len();
    let mut j: usize = n;
    while j > from + 1 && is_space(s.get_char(j - 1))
        invariant
            n == s@.len(),
            from < n,
            !is_space_char(s@[from as int]),
            from < j <= n,
            forall|k: int| j <= k < n ==> is_space_char(s@[k]),
        decreases j,
    {
        j = j - 1;
    }
    j
}

/// Index of the first blank character, or the length if there is none.
pub fn scan_blank(s: &str) -> (k: usize)
    ensures
        0 <= k <= s@.len(),
        forall|m: int| 0 <= m < k ==> s@[m] != ' ',
        k < s@.len() ==> s@[k as int] == ' ',
{
    let n = s.unicode_len();
    let mut k: usize = 0;
    while k < n && s.get_char(k) != ' '
        invariant
            n == s@.len(),
            0 <= k <= n,
            forall|m: int| 0 <= m < k ==> s@[m] != ' ',
        decreases n - k,
    {
        k = k + 1;
    }
    k
}

/// Whether two string slices hold the same characters.
pub fn str_equal(a: &str, b: &str) -> (r: bool)
    ensures
        r == (a@ == b@),
{
    let na = a.unicode_len();
    let nb = b.unicode_len();
    if na != nb {
        proof {
            if a@ == b@ {
                assert(a@.len() == b@.len());
            }
        }
        return false;
    }
    let mut i: usize = 0;
    while i < na
        invariant
            na == a@.len(),
            nb == b@.len(),
            na == nb,
            0 <= i <= na,
            forall|k: int| 0 <= k < i ==> a@[k] == b@[k],
        decreases na - i,
    {
        if a.get_char(i) != b.get_char(i) {
            proof {
                if a@ == b@ {
                    assert(a@[i as int] == b@[i as int]);
                }
            }
            return false;
        }
        i = i + 1;
    }
    proof {
        assert(a@ =~= b@);
    }
    true
}

/// A copy of the input with whitespace removed from both ends.
pub fn trimmed_str(s: &str) -> (r: String)
    ensures
        r@ == trimmed(s@),
{
    let n = s.unicode_len();
    let i = scan_start(s);
    if i == n {
        proof {
            lemma_trim_start_is_skip(s@, i as int);
            assert(s@.skip(n as int) =~= Seq::<char>::empty());
            assert(trimmed(s@) =~= Seq::<char>::empty());
        }
        return String::new();
    }
    let j = scan_end(s, i);
    proof {
        lemma_trim_start_is_skip(s@, i as int);
        let t = s@.skip(i as int);
        assert forall|k: int| j - i <= k < t.len() implies is_space_char(t[k]) by {
            assert(t[k] == s@[k + i]);
        }
        assert(t[j - i - 1] == s@[j - 1]);
        lemma_trim_end_is_take(t, j - i);
        assert(t.take(j - i) =~= s@.subrange(i as int, j as int));
    }
    let piece = s.substring_char(i, j);
    String::from_str(piece)
}

} // verus!
