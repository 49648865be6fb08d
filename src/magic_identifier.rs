//! Synthetic identifiers that cannot collide with names written by users.
//!
//! A tag is embedded between a reserved prefix and suffix. ASCII letters and
//! digits are kept as they are; every other character becomes `$`, six
//! lowercase hex digits of its code point, and `$` again. Each character's
//! code ends in a character that tells its width, so the encoding can be read
//! back from the end and two different tags never share an identifier.
use vstd::prelude::*;

verus! {

/// The reserved prefix of every synthetic identifier.
pub const PREFIX: &'static str = "__TURBOPACK__";

/// The reserved suffix of every synthetic identifier.
pub const SUFFIX: &'static str = "__";

pub open spec fn is_plain(c: char) -> bool {
    ('0' <= c && c <= '9') || ('a' <= c && c <= 'z') || ('A' <= c && c <= 'Z')
}

/// A character that may start an ECMAScript identifier (ASCII subset).
pub open spec fn is_ident_start(c: char) -> bool {
    ('a' <= c && c <= 'z') || ('A' <= c && c <= 'Z') || c == '_' || c == '$'
}

/// A character that may continue an ECMAScript identifier (ASCII subset).
pub open spec fn is_ident_part(c: char) -> bool {
    is_plain(c) || c == '_' || c == '$'
}

pub open spec fn is_identifier(s: Seq<char>) -> bool {
    &&& s.len() > 0
    &&& is_ident_start(s[0])
    &&& forall|i: int| 0 <= i < s.len() ==> #[trigger] is_ident_part(s[i])
}

pub open spec fn hex_char(n: u32) -> char {
    if n == 0 { '0' }
    else if n == 1 { '1' }
    else if n == 2 { '2' }
    else if n == 3 { '3' }
    else if n == 4 { '4' }
    else if n == 5 { '5' }
    else if n == 6 { '6' }
    else if n == 7 { '7' }
    else if n == 8 { '8' }
    else if n == 9 { '9' }
    else if n == 10 { 'a' }
    else if n == 11 { 'b' }
    else if n == 12 { 'c' }
    else if n == 13 { 'd' }
    else if n == 14 { 'e' }
    else { 'f' }
}

/// The `k`-th hex digit of `v`, counted from the least significant one.
pub open spec fn nibble(v: u32, k: u32) -> u32 {
    (v >> (4 * k)) & 0xf
}

/// Six hex digits of `v`, most significant first.
pub open spec fn hex6(v: u32) -> Seq<char> {
    seq![
        hex_char(nibble(v, 5)),
        hex_char(nibble(v, 4)),
        hex_char(nibble(v, 3)),
        hex_char(nibble(v, 2)),
        hex_char(nibble(v, 1)),
        hex_char(nibble(v, 0)),
    ]
}

pub open spec fn encode_char(c: char) -> Seq<char> {
    if is_plain(c) {
        seq![c]
    } else {
        seq!['$'] + hex6(c as u32) + seq!['$']
    }
}

pub open spec fn encode_chars(s: Seq<char>) -> Seq<char>
    decreases s.len(),
{
    if s.len() == 0 {
        Seq::empty()
    } else {
        encode_chars(s.drop_last()) + encode_char(s.last())
    }
}

/// The synthetic identifier for `tag`.
pub open spec fn magic_identifier(tag: Seq<char>) -> Seq<char> {
    PREFIX@ + encode_chars(tag) + SUFFIX@
}

proof fn lemma_hex_char_injective(m: u32, n: u32)
    requires
        m < 16,
        n < 16,
        hex_char(m) == hex_char(n),
    ensures
        m == n,
{
}

proof fn lemma_hex6_injective(v: u32, w: u32)
    requires
        v < 0x1000000,
        w < 0x1000000,
        hex6(v) == hex6(w),
    ensures
        v == w,
{
    assert forall|k: u32| k < 6 implies nibble(v, k) == nibble(w, k) by {
        assert(nibble(v, k) < 16) by (bit_vector);
        assert(nibble(w, k) < 16) by (bit_vector);
        assert(hex6(v)[5 - k] == hex6(w)[5 - k]);
        lemma_hex_char_injective(nibble(v, k), nibble(w, k));
    }
    let (n0, n1, n2) = (nibble(v, 0), nibble(v, 1), nibble(v, 2));
    let (n3, n4, n5) = (nibble(v, 3), nibble(v, 4), nibble(v, 5));
    assert(nibble(w, 0) == n0 && nibble(w, 1) == n1 && nibble(w, 2) == n2);
    assert(nibble(w, 3) == n3 && nibble(w, 4) == n4 && nibble(w, 5) == n5);
    assert(v == w) by (bit_vector)
        requires
            v < 0x1000000,
            w < 0x1000000,
            (v >> 0) & 0xf == (w >> 0) & 0xf,
            (v >> 4) & 0xf == (w >> 4) & 0xf,
            (v >> 8) & 0xf == (w >> 8) & 0xf,
            (v >> 12) & 0xf == (w >> 12) & 0xf,
            (v >> 16) & 0xf == (w >> 16) & 0xf,
            (v >> 20) & 0xf == (w >> 20) & 0xf,
    ;
}

proof fn lemma_encode_char_shape(c: char)
    ensures
        is_plain(c) ==> encode_char(c).len() == 1 && encode_char(c).last() == c,
        !is_plain(c) ==> encode_char(c).len() == 8 && encode_char(c).last() == '$',
        forall|i: int| 0 <= i < encode_char(c).len() ==> #[trigger] is_ident_part(encode_char(c)[i]),
{
    if !is_plain(c) {
        let v = c as u32;
        assert forall|i: int| 0 <= i < encode_char(c).len() implies #[trigger] is_ident_part(
            encode_char(c)[i],
        ) by {
            if 1 <= i < 7 {
                assert(encode_char(c)[i] == hex6(v)[i - 1]);
            }
        }
    }
}

proof fn lemma_code_points(c: char, d: char)
    ensures
        (c as u32) < 0x1000000,
        (d as u32) < 0x1000000,
        (c as u32) == (d as u32) ==> c == d,
{
}

proof fn lemma_encode_chars_injective(a: Seq<char>, b: Seq<char>)
    requires
        encode_chars(a) == encode_chars(b),
    ensures
        a == b,
    decreases a.len() + b.len(),
{
    if a.len() == 0 && b.len() == 0 {
        assert(a =~= b);
    } else if a.len() == 0 {
        lemma_encode_char_shape(b.last());
        assert(encode_chars(b).len() > 0);
    } else if b.len() == 0 {
        lemma_encode_char_shape(a.last());
        assert(encode_chars(a).len() > 0);
    } else {
        let (ca, cb) = (a.last(), b.last());
        lemma_encode_char_shape(ca);
        lemma_encode_char_shape(cb);
        let e = encode_chars(a);
        let (ea, eb) = (encode_char(ca), encode_char(cb));
        assert(e.last() == ea.last());
        assert(e.last() == eb.last());
        assert(ea.len() == eb.len());
        let k = e.len() - ea.len();
        assert(e.subrange(k, e.len() as int) =~= ea);
        assert(encode_chars(b).subrange(k, e.len() as int) =~= eb);
        assert(e.subrange(0, k) =~= encode_chars(a.drop_last()));
        assert(encode_chars(b).subrange(0, k) =~= encode_chars(b.drop_last()));
        if is_plain(ca) {
            assert(ca == ea[0]);
            assert(cb == eb[0]);
        } else {
            assert(hex6(ca as u32) =~= ea.subrange(1, 7));
            assert(hex6(cb as u32) =~= eb.subrange(1, 7));
            lemma_code_points(ca, cb);
            lemma_hex6_injective(ca as u32, cb as u32);
        }
        lemma_encode_chars_injective(a.drop_last(), b.drop_last());
        assert(a =~= a.drop_last().push(ca));
        assert(b =~= b.drop_last().push(cb));
    }
}

proof fn lemma_encode_chars_legal(s: Seq<char>)
    ensures
        forall|i: int| 0 <= i < encode_chars(s).len() ==> #[trigger] is_ident_part(encode_chars(s)[i]),
    decreases s.len(),
{
    if s.len() > 0 {
        lemma_encode_chars_legal(s.drop_last());
        lemma_encode_char_shape(s.last());
        let p = encode_chars(s.drop_last());
        assert forall|i: int| 0 <= i < encode_chars(s).len() implies #[trigger] is_ident_part(
            encode_chars(s)[i],
        ) by {
            if i >= p.len() {
                assert(encode_chars(s)[i] == encode_char(s.last())[i - p.len()]);
            } else {
                assert(encode_chars(s)[i] == p[i]);
            }
        }
    }
}

/// Two tags share a synthetic identifier exactly when they are the same tag,
/// and every synthetic identifier is a legal ECMAScript identifier.
pub proof fn lemma_magic_identifier_injective_and_legal(t1: Seq<char>, t2: Seq<char>)
    ensures
        magic_identifier(t1) == magic_identifier(t2) <==> t1 == t2,
        is_identifier(magic_identifier(t1)),
{
    reveal_strlit("__TURBOPACK__");
    reveal_strlit("__");
    let (m1, m2) = (magic_identifier(t1), magic_identifier(t2));
    if m1 == m2 {
        let (e1, e2) = (encode_chars(t1), encode_chars(t2));
        assert(e1.len() == e2.len());
        assert(m1.subrange(13, 13 + e1.len() as int) =~= e1);
        assert(m2.subrange(13, 13 + e2.len() as int) =~= e2);
        lemma_encode_chars_injective(t1, t2);
    }
    lemma_encode_chars_legal(t1);
    let e = encode_chars(t1);
    assert forall|i: int| 0 <= i < m1.len() implies #[trigger] is_ident_part(m1[i]) by {
        if i < 13 {
            assert(m1[i] == PREFIX@[i]);
        } else if i < 13 + e.len() {
            assert(m1[i] == e[i - 13]);
        } else {
            assert(m1[i] == SUFFIX@[i - 13 - e.len()]);
        }
    }
    assert(m1[0] == '_');
}

fn hex_char_exec(n: u32) -> (c: char)
    ensures
        c == hex_char(n),
{
    if n == 0 { '0' }
    else if n == 1 { '1' }
    else if n == 2 { '2' }
    else if n == 3 { '3' }
    else if n == 4 { '4' }
    else if n == 5 { '5' }
    else if n == 6 { '6' }
    else if n == 7 { '7' }
    else if n == 8 { '8' }
    else if n == 9 { '9' }
    else if n == 10 { 'a' }
    else if n == 11 { 'b' }
    else if n == 12 { 'c' }
    else if n == 13 { 'd' }
    else if n == 14 { 'e' }
    else { 'f' }
}

fn is_plain_exec(c: char) -> (r: bool)
    ensures
        r == is_plain(c),
{
    ('0' <= c && c <= '9') || ('a' <= c && c <= 'z') || ('A' <= c && c <= 'Z')
}

/// Relies on `String::push`: appends one character at the end.
#[verifier::external_body]
fn push_char(s: &mut String, c: char)
    ensures
        final(s)@ == old(s)@.push(c),
{
    s.push(c)
}

fn push_encoded_char(out: &mut String, c: char)
    ensures
        final(out)@ == old(out)@ + encode_char(c),
{
    if is_plain_exec(c) {
        push_char(out, c);
        assert(final(out)@ =~= old(out)@ + encode_char(c));
    } else {
        let v = c as u32;
        push_char(out, '$');
        let mut k: u32 = 6;
        while k > 0
            invariant
                k <= 6,
                v == c as u32,
                out@ == old(out)@ + seq!['$'] + hex6(v).take(6 - k),
            decreases k,
        {
            k = k - 1;
            let d = hex_char_exec((v >> (4 * k)) & 0xf);
            push_char(out, d);
            assert(hex6(v).take(6 - k) =~= hex6(v).take(6 - (k + 1)).push(d));
        }
        push_char(out, '$');
        assert(hex6(v).take(6) =~= hex6(v));
        assert(final(out)@ =~= old(out)@ + encode_char(c));
    }
}

/// Encodes `content` as a synthetic identifier name.
pub fn encode(content: &str) -> (r: String)
    ensures
        r@ == magic_identifier(content@),
{
    let mut out = String::from_str(PREFIX);
    let n = content.unicode_len();
    let mut i: usize = 0;
    while i < n
        invariant
            n == content@.len(),
            i <= n,
            out@ == PREFIX@ + encode_chars(content@.take(i as int)),
        decreases n - i,
    {
        let c = content.get_char(i);
        push_encoded_char(&mut out, c);
        assert(content@.take(i + 1).drop_last() =~= content@.take(i as int));
        i = i + 1;
    }
    assert(content@.take(n as int) =~= content@);
    out.append(SUFFIX);
    out
}

} // verus!
