use vstd::prelude::*;
use vstd::string::StrSliceExecFns;

verus! {

/// The characters of the Unicode property White_Space, those that
/// `char::is_whitespace` accepts.
pub open spec fn is_white_space(c: char) -> bool {
    ('\u{9}' <= c && c <= '\u{d}') || c == ' ' || c == '\u{85}' || c == '\u{a0}'
        || c == '\u{1680}' || ('\u{2000}' <= c && c <= '\u{200a}') || c == '\u{2028}'
        || c == '\u{2029}' || c == '\u{202f}' || c == '\u{205f}' || c == '\u{3000}'
}

/// `s` without its leading white space.
pub open spec fn trim_start_of(s: Seq<char>) -> Seq<char>
    decreases s.len(),
{
    if s.len() > 0 && is_white_space(s[0]) {
        trim_start_of(s.drop_first())
    } else {
        s
    }
}

/// `s` without its trailing white space.
pub open spec fn trim_end_of(s: Seq<char>) -> Seq<char>
    decreases s.len(),
{
    if s.len() > 0 && is_white_space(s.last()) {
        trim_end_of(s.drop_last())
    } else {
        s
    }
}

/// `s` without its leading and trailing white space.
pub open spec fn trimmed(s: Seq<char>) -> Seq<char> {
    trim_end_of(trim_start_of(s))
}

/// Relies on `str::trim`: it returns a slice of its argument with leading and
/// trailing white space (Unicode White_Space) removed.
#[verifier::external_body]
pub(crate) fn trim(s: &str) -> (r: &str)
    ensures
        r@ == trimmed(s@),
{
    s.trim()
}

/// Whether two texts hold the same characters.
pub fn same_text(a: &str, b: &str) -> (r: bool)
    ensures
        r == (a@ == b@),
{
    let n = a.unicode_len();
    if n != b.unicode_len() {
        return false;
    }
    let mut i: usize = 0;
    while i < n
        invariant
            n == a@.len(),
            n == b@.len(),
            i <= n,
            a@.subrange(0, i as int) == b@.subrange(0, i as int),
        decreases n - i,
    {
        if a.get_char(i) != b.get_char(i) {
            assert(a@[i as int] != b@[i as int]);
            return false;
        }
        assert(a@.subrange(0, i + 1) == a@.subrange(0, i as int).push(a@[i as int]));
        assert(b@.subrange(0, i + 1) == b@.subrange(0, i as int).push(b@[i as int]));
        i = i + 1;
    }
    assert(a@ == a@.subrange(0, n as int));
    assert(b@ == b@.subrange(0, n as int));
    true
}

pub open spec fn is_ascii_alnum(c: char) -> bool {
    ('0' <= c && c <= '9') || ('a' <= c && c <= 'z') || ('A' <= c && c <= 'Z')
}

pub open spec fn is_hex_digit(c: char) -> bool {
    ('0' <= c && c <= '9') || ('a' <= c && c <= 'f') || ('A' <= c && c <= 'F')
}

/// Whether every character of `s` from position `from` on is an ASCII
/// letter or digit (`hex` false) or an ASCII hexadecimal digit (`hex` true).
pub fn all_from(s: &str, from: usize, hex: bool) -> (r: bool)
    ensures
        r == (forall|k: int| from <= k < s@.len() ==> (if hex { is_hex_digit(#[trigger] s@[k]) } else { is_ascii_alnum(s@[k]) })),
{
    let n = s.unicode_len();
    let mut i: usize = from;
    while i < n
        invariant
            n == s@.len(),
            from <= i || n <= i,
            forall|k: int| from <= k < i ==> (if hex { is_hex_digit(#[trigger] s@[k]) } else { is_ascii_alnum(s@[k]) }),
        decreases n - i,
    {
        let c = s.get_char(i);
        let ok = if hex {
            ('0' <= c && c <= '9') || ('a' <= c && c <= 'f') || ('A' <= c && c <= 'F')
        } else {
            ('0' <= c && c <= '9') || ('a' <= c && c <= 'z') || ('A' <= c && c <= 'Z')
        };
        if !ok {
            return false;
        }
        i = i + 1;
    }
    true
}

/// `a` and `b` agree on their first `i` characters, both having at least `i`.
pub open spec fn agree_upto(a: Seq<char>, b: Seq<char>, i: int) -> bool {
    0 <= i <= a.len() && i <= b.len() && forall|j: int| 0 <= j < i ==> a[j] == b[j]
}

/// `a` comes before `b` in the order of code points, a proper prefix first.
/// On UTF-8 text this is the order of the bytes.
pub open spec fn text_less(a: Seq<char>, b: Seq<char>) -> bool {
    exists|i: int| #[trigger] agree_upto(a, b, i) && (
        (i == a.len() && i < b.len()) || (i < a.len() && i < b.len() && a[i] < b[i]))
}

pub proof fn lemma_text_less_transitive(a: Seq<char>, b: Seq<char>, c: Seq<char>)
    requires
        text_less(a, b),
        text_less(b, c),
    ensures
        text_less(a, c),
{
    let i = choose|i: int| #[trigger] agree_upto(a, b, i) && (
        (i == a.len() && i < b.len()) || (i < a.len() && i < b.len() && a[i] < b[i]));
    let j = choose|j: int| #[trigger] agree_upto(b, c, j) && (
        (j == b.len() && j < c.len()) || (j < b.len() && j < c.len() && b[j] < c[j]));
    if i <= j {
        assert(agree_upto(a, c, i));
    } else {
        assert(agree_upto(a, c, j));
    }
}

pub proof fn lemma_text_less_irreflexive(a: Seq<char>)
    ensures
        !text_less(a, a),
{
}

/// Whether `a` comes before `b` in the order of code points; when it does
/// not and the two differ, `b` comes before `a`.
pub fn text_less_exec(a: &str, b: &str) -> (r: bool)
    ensures
        r == text_less(a@, b@),
        !r && a@ != b@ ==> text_less(b@, a@),
{
    let na = a.unicode_len();
    let nb = b.unicode_len();
    let mut i: usize = 0;
    while i < na && i < nb
        invariant
            na == a@.len(),
            nb == b@.len(),
            agree_upto(a@, b@, i as int),
        decreases na - i,
    {
        let ca = a.get_char(i);
        let cb = b.get_char(i);
        if ca != cb {
            assert(agree_upto(b@, a@, i as int));
            if ca < cb {
                return true;
            } else {
                assert forall|w: int| #[trigger] agree_upto(a@, b@, w) implies !(
                    (w == a@.len() && w < b@.len()) || (w < a@.len() && w < b@.len() && a@[w] < b@[w])) by {
                    if w > i {
                        assert(a@[i as int] == b@[i as int]);
                    }
                }
                return false;
            }
        }
        i = i + 1;
    }
    assert(agree_upto(b@, a@, i as int));
    if i == na && i < nb {
        true
    } else {
        assert forall|w: int| #[trigger] agree_upto(a@, b@, w) implies !(
            (w == a@.len() && w < b@.len()) || (w < a@.len() && w < b@.len() && a@[w] < b@[w])) by {
        }
        if i == na && i == nb {
            assert(a@ =~= b@);
        }
        false
    }
}

} // verus!
