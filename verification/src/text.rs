//! Character-level helpers for the strings that an HDT store hands out.
use std::cmp::Ordering;
use vstd::prelude::*;
use vstd::std_specs::iter::IteratorSpec;
use vstd::utf8::{char_is_scalar, encode_scalar, encode_utf8};

verus! {

/// The last position `i` with `lo <= i < hi` at which `s` holds `c`, if any.
pub open spec fn last_index_in(s: Seq<char>, lo: int, hi: int, c: char) -> Option<int>
    decreases hi - lo,
{
    if hi <= lo {
        None
    } else if s[hi - 1] == c {
        Some(hi - 1)
    } else {
        last_index_in(s, lo, hi - 1, c)
    }
}

/// What `last_index_in` returns lies in the searched range and holds `c`,
/// and no later position in the range holds `c`.
pub proof fn lemma_last_index_in(s: Seq<char>, lo: int, hi: int, c: char)
    ensures
        last_index_in(s, lo, hi, c) matches Some(i) ==> {
            &&& lo <= i < hi
            &&& s[i] == c
            &&& forall|j: int| i < j < hi ==> s[j] != c
        },
        last_index_in(s, lo, hi, c) is None ==> forall|j: int| lo <= j < hi ==> s[j] != c,
    decreases hi - lo,
{
    if hi > lo && s[hi - 1] != c {
        lemma_last_index_in(s, lo, hi - 1, c);
    }
}

/// A position that holds `c`, with no later one in the range, is what
/// `last_index_in` finds.
pub proof fn lemma_last_index_in_is(s: Seq<char>, lo: int, hi: int, c: char, i: int)
    requires
        lo <= i < hi,
        s[i] == c,
        forall|j: int| i < j < hi ==> s[j] != c,
    ensures
        last_index_in(s, lo, hi, c) == Some(i),
    decreases hi - lo,
{
    if hi - 1 != i {
        lemma_last_index_in_is(s, lo, hi - 1, c, i);
    }
}

/// The number of bytes of the UTF-8 encoding of `s`.
pub open spec fn enc_len(s: Seq<char>) -> int {
    encode_utf8(s).len() as int
}

/// The number of bytes of the UTF-8 encoding of `c`.
pub open spec fn char_width(c: char) -> int {
    encode_scalar(c as u32).len() as int
}

/// The number of characters of `s` that the first `b` bytes of its UTF-8
/// encoding begin: the character position at byte offset `b`, when `b` falls
/// between two characters.
pub open spec fn char_index_of(s: Seq<char>, b: int) -> int
    decreases s.len(),
{
    if b <= 0 || s.len() == 0 {
        0
    } else {
        1 + char_index_of(s.drop_first(), b - char_width(s[0]))
    }
}

/// Every character takes one to four bytes.
pub proof fn lemma_char_width(c: char)
    ensures
        1 <= char_width(c) <= 4,
        c == '"' ==> char_width(c) == 1,
{
}

/// The encoding of two texts one after the other is their encodings one
/// after the other.
pub proof fn lemma_encode_concat(a: Seq<char>, b: Seq<char>)
    ensures
        encode_utf8(a + b) == encode_utf8(a) + encode_utf8(b),
    decreases a.len(),
{
    if a.len() == 0 {
        assert(a + b =~= b);
        assert(encode_utf8(a) + encode_utf8(b) =~= encode_utf8(b));
    } else {
        assert((a + b).drop_first() =~= a.drop_first() + b);
        assert((a + b)[0] == a[0]);
        lemma_encode_concat(a.drop_first(), b);
        assert(encode_utf8(a + b) =~= encode_utf8(a) + encode_utf8(b));
    }
}

/// The byte offset where `a` ends in the encoding of `a + b` is at character
/// position `a.len()`.
pub proof fn lemma_char_index_of_prefix(a: Seq<char>, b: Seq<char>)
    ensures
        char_index_of(a + b, enc_len(a)) == a.len(),
    decreases a.len(),
{
    if a.len() > 0 {
        lemma_char_width(a[0]);
        assert(encode_utf8(a) == encode_scalar(a[0] as u32) + encode_utf8(a.drop_first()));
        assert((a + b).drop_first() =~= a.drop_first() + b);
        assert((a + b)[0] == a[0]);
        lemma_char_index_of_prefix(a.drop_first(), b);
    } else {
        assert(encode_utf8(a).len() == 0);
    }
}

/// A prefix of a text takes no more bytes than the whole.
pub proof fn lemma_enc_len_take(s: Seq<char>, i: int)
    requires
        0 <= i <= s.len(),
    ensures
        enc_len(s.take(i)) <= enc_len(s),
        i < s.len() ==> enc_len(s.take(i + 1)) == enc_len(s.take(i)) + char_width(s[i]),
{
    assert(s =~= s.take(i) + s.skip(i));
    lemma_encode_concat(s.take(i), s.skip(i));
    if i < s.len() {
        assert(s.take(i + 1) =~= s.take(i) + seq![s[i]]);
        lemma_encode_concat(s.take(i), seq![s[i]]);
        assert(encode_utf8(seq![s[i]]) =~= encode_scalar(s[i] as u32) + encode_utf8(
            seq![s[i]].drop_first(),
        ));
        assert(seq![s[i]].drop_first() =~= Seq::<char>::empty());
    }
}

/// Whether `s` is non-empty and begins with `c`.
pub open spec fn starts_with_char(s: Seq<char>, c: char) -> bool {
    s.len() > 0 && s[0] == c
}

/// The lexicographic order of two character sequences, comparing characters
/// by their code points; a proper prefix comes first.
pub open spec fn text_order(a: Seq<char>, b: Seq<char>) -> Ordering
    decreases a.len(),
{
    if a.len() == 0 {
        if b.len() == 0 {
            Ordering::Equal
        } else {
            Ordering::Less
        }
    } else if b.len() == 0 {
        Ordering::Greater
    } else if a[0] < b[0] {
        Ordering::Less
    } else if b[0] < a[0] {
        Ordering::Greater
    } else {
        text_order(a.drop_first(), b.drop_first())
    }
}

/// The characters of `s`, in order.
pub fn chars_of(s: &str) -> (v: Vec<char>)
    ensures
        v@ == s@,
{
    let mut v: Vec<char> = Vec::new();
    for c in it: s.chars()
        invariant
            v@ == it.seq().take(it.index() as int),
            it.seq() == s@,
    {
        v.push(c);
    }
    v
}

/// The last position `i` with `lo <= i < v.len()` at which `v` holds `c`.
pub fn rfind_from(v: &Vec<char>, lo: usize, c: char) -> (r: Option<usize>)
    ensures
        r == (match last_index_in(v@, lo as int, v@.len() as int, c) {
            Some(i) => Some(i as usize),
            None => None::<usize>,
        }),
{
    let mut i: usize = v.len();
    while i > lo
        invariant
            i <= v@.len(),
            last_index_in(v@, lo as int, v@.len() as int, c) == last_index_in(
                v@,
                lo as int,
                i as int,
                c,
            ),
        decreases i,
    {
        if v[i - 1] == c {
            return Some(i - 1);
        }
        i = i - 1;
    }
    None
}

/// The number of bytes of the UTF-8 encoding of `c`.
pub fn utf8_width(c: char) -> (w: usize)
    ensures
        w == char_width(c),
{
    proof {
        char_is_scalar(c);
    }
    let v = c as u32;
    if v <= 0x7F {
        1
    } else if v <= 0x7FF {
        2
    } else if v <= 0xFFFF {
        3
    } else {
        4
    }
}

/// The character position in `s` at byte offset `b` (see `char_index_of`).
pub fn char_index_of_byte(s: &str, b: usize) -> (q: usize)
    ensures
        q == char_index_of(s@, b as int),
{
    let chars = chars_of(s);
    let n = chars.len();
    let mut i: usize = 0;
    let mut rest: usize = b;
    assert(s@.skip(0) =~= s@);
    while rest > 0 && i < n
        invariant
            chars@ == s@,
            n == s@.len(),
            i <= n,
            char_index_of(s@, b as int) == i + char_index_of(s@.skip(i as int), rest as int),
        decreases n - i,
    {
        let w = utf8_width(chars[i]);
        proof {
            assert(s@.skip(i as int).drop_first() =~= s@.skip(i + 1));
            assert(s@.skip(i as int)[0] == s@[i as int]);
            lemma_char_width(s@[i as int]);
            assert(char_index_of(s@.skip(i as int), rest as int) == 1 + char_index_of(
                s@.skip(i + 1),
                rest - w,
            ));
            if w >= rest {
                assert(char_index_of(s@.skip(i + 1), rest - w) == 0);
                assert(char_index_of(s@.skip(i + 1), 0) == 0);
            }
        }
        if w >= rest {
            rest = 0;
        } else {
            rest = rest - w;
        }
        i = i + 1;
    }
    proof {
        if i == n {
            assert(s@.skip(i as int).len() == 0);
        }
    }
    i
}

/// The number of bytes that the first `q` characters take.
pub fn prefix_byte_len(chars: &Vec<char>, q: usize, total: usize) -> (r: usize)
    requires
        q <= chars@.len(),
        enc_len(chars@) == total,
    ensures
        r == enc_len(chars@.take(q as int)),
{
    let mut i: usize = 0;
    let mut acc: usize = 0;
    proof {
        assert(chars@.take(0) =~= Seq::<char>::empty());
    }
    while i < q
        invariant
            q <= chars@.len(),
            enc_len(chars@) == total,
            i <= q,
            acc == enc_len(chars@.take(i as int)),
        decreases q - i,
    {
        proof {
            lemma_enc_len_take(chars@, i as int);
            lemma_enc_len_take(chars@, i + 1);
        }
        acc = acc + utf8_width(chars[i]);
        i = i + 1;
    }
    acc
}

/// Whether `s` begins with `c`; reads only the first character.
pub fn first_char_is(s: &str, c: char) -> (r: bool)
    ensures
        r == starts_with_char(s@, c),
{
    if s.is_empty() {
        false
    } else {
        s.get_char(0) == c
    }
}

/// Equality of two string slices: the same characters in the same order.
pub fn str_eq(a: &str, b: &str) -> (r: bool)
    ensures
        r == (a@ == b@),
{
    let va = chars_of(a);
    let vb = chars_of(b);
    if va.len() != vb.len() {
        return false;
    }
    let mut i: usize = 0;
    while i < va.len()
        invariant
            va@ == a@,
            vb@ == b@,
            va@.len() == vb@.len(),
            i <= va@.len(),
            forall|j: int| 0 <= j < i ==> va@[j] == vb@[j],
        decreases va@.len() - i,
    {
        if va[i] != vb[i] {
            return false;
        }
        i = i + 1;
    }
    assert(va@ =~= vb@);
    true
}

/// The order of two string slices: calls `<str as Ord>::cmp`, and claims
/// that it is `text_order` of their characters. Its documentation orders
/// strings lexicographically by their UTF-8 bytes, which orders characters
/// by code point, a proper prefix first.
#[verifier::external_body]
pub(crate) fn str_order(a: &str, b: &str) -> (r: Ordering)
    ensures
        r == text_order(a@, b@),
{
    a.cmp(b)
}

/// The order with its two sides swapped.
pub open spec fn flipped(o: Ordering) -> Ordering {
    match o {
        Ordering::Less => Ordering::Greater,
        Ordering::Equal => Ordering::Equal,
        Ordering::Greater => Ordering::Less,
    }
}

/// Two texts are in order `Equal` exactly when they are the same text.
pub proof fn lemma_text_order_equal(a: Seq<char>, b: Seq<char>)
    ensures
        (text_order(a, b) == Ordering::Equal) <==> a == b,
    decreases a.len(),
{
    if a.len() == 0 && b.len() == 0 {
        assert(a =~= b);
    }
    if a.len() > 0 && b.len() > 0 && a[0] == b[0] {
        lemma_text_order_equal(a.drop_first(), b.drop_first());
        if a.drop_first() == b.drop_first() {
            assert(a =~= seq![a[0]] + a.drop_first());
            assert(b =~= seq![b[0]] + b.drop_first());
        }
        if a == b {
            assert(a.drop_first() =~= b.drop_first());
        }
    }
}

/// Swapping two texts swaps their order.
pub proof fn lemma_text_order_flip(a: Seq<char>, b: Seq<char>)
    ensures
        text_order(b, a) == flipped(text_order(a, b)),
    decreases a.len(),
{
    if a.len() > 0 && b.len() > 0 && a[0] == b[0] {
        lemma_text_order_flip(a.drop_first(), b.drop_first());
    }
}

/// The order of texts is transitive.
pub proof fn lemma_text_order_transitive(a: Seq<char>, b: Seq<char>, c: Seq<char>)
    requires
        text_order(a, b) == Ordering::Less,
        text_order(b, c) == Ordering::Less,
    ensures
        text_order(a, c) == Ordering::Less,
    decreases a.len(),
{
    if a.len() > 0 && b.len() > 0 && c.len() > 0 && a[0] == b[0] && b[0] == c[0] {
        lemma_text_order_transitive(a.drop_first(), b.drop_first(), c.drop_first());
    }
}

/// `a` and `b` agree before position `i` and first differ there, with the
/// character of `a` the lower.
pub open spec fn first_lower_at(a: Seq<char>, b: Seq<char>, i: int) -> bool {
    &&& 0 <= i < a.len()
    &&& i < b.len()
    &&& forall|j: int| 0 <= j < i ==> a[j] == b[j]
    &&& a[i] < b[i]
}

/// `a` is a proper prefix of `b`.
pub open spec fn proper_prefix(a: Seq<char>, b: Seq<char>) -> bool {
    &&& a.len() < b.len()
    &&& forall|j: int| 0 <= j < a.len() ==> a[j] == b[j]
}

/// The order of texts is lexicographic: at the first position where two
/// texts differ, the lower character comes first.
pub proof fn lemma_text_order_first_lower(a: Seq<char>, b: Seq<char>, i: int)
    requires
        first_lower_at(a, b, i),
    ensures
        text_order(a, b) == Ordering::Less,
        text_order(b, a) == Ordering::Greater,
    decreases i,
{
    if i > 0 {
        assert(a[0] == b[0]);
        assert forall|j: int| 0 <= j < i - 1 implies a.drop_first()[j] == b.drop_first()[j] by {
            assert(a[j + 1] == b[j + 1]);
        }
        lemma_text_order_first_lower(a.drop_first(), b.drop_first(), i - 1);
    }
}

/// The order of texts puts a proper prefix first.
pub proof fn lemma_text_order_prefix(a: Seq<char>, b: Seq<char>)
    requires
        proper_prefix(a, b),
    ensures
        text_order(a, b) == Ordering::Less,
        text_order(b, a) == Ordering::Greater,
    decreases a.len(),
{
    if a.len() > 0 {
        assert(a[0] == b[0]);
        assert forall|j: int| 0 <= j < a.len() - 1 implies a.drop_first()[j] == b.drop_first()[j] by {
            assert(a[j + 1] == b[j + 1]);
        }
        lemma_text_order_prefix(a.drop_first(), b.drop_first());
    }
}

} // verus!
