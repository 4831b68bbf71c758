use vstd::prelude::*;
use vstd::utf8::{decode_utf8, is_leading_byte_width_1, length_of_first_scalar, valid_utf8};

verus! {

/// Position `s` begins a line of `t`.
pub open spec fn starts_line(t: Seq<u8>, s: int) -> bool {
    s == 0 || t[s - 1] == 10u8
}

/// A line of `t` that assigns the `ID` key begins at `s`.
pub open spec fn is_id_line(t: Seq<u8>, s: int) -> bool {
    &&& 0 <= s
    &&& s + 3 <= t.len()
    &&& starts_line(t, s)
    &&& t[s] == 73u8
    &&& t[s + 1] == 68u8
    &&& t[s + 2] == 61u8
}

/// The first line of `t` that assigns `ID` begins at `s`.
pub open spec fn is_first_id_line(t: Seq<u8>, s: int) -> bool {
    is_id_line(t, s) && forall|s2: int| s2 < s ==> !is_id_line(t, s2)
}

/// The end of the line holding position `from`: the next line feed at or
/// after it, or the end of `t`.
pub open spec fn line_end(t: Seq<u8>, from: int) -> int
    decreases t.len() - from,
{
    if from >= t.len() {
        t.len() as int
    } else if t[from] == 10u8 {
        from
    } else {
        line_end(t, from + 1)
    }
}

/// The line of `t` that begins at `s`, without its line feed.
pub open spec fn line_at(t: Seq<u8>, s: int) -> Seq<u8> {
    t.subrange(s, line_end(t, s))
}

/// Every line of `t` that begins at or before `s` is valid UTF-8, so a
/// reader that stops at the first undecodable line gets through line `s`.
pub open spec fn readable_through(t: Seq<u8>, s: int) -> bool {
    forall|s2: int| 0 <= s2 <= s && starts_line(t, s2) ==> #[trigger] valid_utf8(line_at(t, s2))
}

/// The characters after `ID=` on the line that begins at `s`.
pub open spec fn id_text(t: Seq<u8>, s: int) -> Seq<char> {
    decode_utf8(t.subrange(s + 3, line_end(t, s)))
}

/// What `str::trim` leaves of a string: it drops leading and trailing
/// Unicode white space.
pub uninterp spec fn trim_of(s: Seq<char>) -> Seq<char>;

/// Relies on str::trim: the result depends on the characters alone.
#[verifier::external_body]
fn trim_whitespace(s: &String) -> (r: String)
    ensures
        r@ == trim_of(s@),
{
    s.trim().to_owned()
}

/// Relies on String::from_utf8: it succeeds exactly when the bytes are valid
/// UTF-8, and the string then holds the characters they encode.
#[verifier::external_body]
fn utf8_string(bytes: Vec<u8>) -> (r: Option<String>)
    ensures
        r is Some <==> valid_utf8(bytes@),
        r matches Some(s) ==> s@ == decode_utf8(bytes@),
{
    String::from_utf8(bytes).ok()
}

proof fn lemma_line_end(t: Seq<u8>, from: int, e: int)
    requires
        0 <= from <= e <= t.len(),
        forall|j: int| from <= j < e ==> t[j] != 10u8,
        e == t.len() || t[e] == 10u8,
    ensures
        line_end(t, from) == e,
    decreases e - from,
{
    if from < e {
        lemma_line_end(t, from + 1, e);
    }
}

/// Valid UTF-8 that begins with an ASCII byte stays valid without it.
proof fn lemma_drop_ascii(b: Seq<u8>, i: int)
    requires
        0 <= i < b.len(),
        b[i] <= 0x7f,
        valid_utf8(b.subrange(i, b.len() as int)),
    ensures
        valid_utf8(b.subrange(i + 1, b.len() as int)),
{
    let c = b.subrange(i, b.len() as int);
    assert(is_leading_byte_width_1(c[0]));
    assert(length_of_first_scalar(c) == 1);
    assert(c.subrange(1, c.len() as int) =~= b.subrange(i + 1, b.len() as int));
}

/// A copy of `text[a..e]`.
fn copy_range(text: &[u8], a: usize, e: usize) -> (r: Vec<u8>)
    requires
        a <= e <= text@.len(),
    ensures
        r@ == text@.subrange(a as int, e as int),
{
    let mut out: Vec<u8> = Vec::new();
    let mut i: usize = a;
    while i < e
        invariant
            a <= i <= e <= text@.len(),
            out@ == text@.subrange(a as int, i as int),
        decreases e - i,
    {
        out.push(text[i]);
        assert(out@ =~= text@.subrange(a as int, i + 1));
        i = i + 1;
    }
    out
}

/// Finds the value of the `ID` key in the text of an os-release file, read
/// line by line: the rest of the first line that begins with `ID=`, trimmed
/// of white space. `None` when no line assigns `ID`, or when a line up to
/// and including that one is not valid UTF-8.
pub fn os_release_id(text: &[u8]) -> (r: Option<String>)
    ensures
        r is Some <==> exists|s: int|
            #![trigger is_first_id_line(text@, s)]
            is_first_id_line(text@, s) && readable_through(text@, s),
        r matches Some(v) ==> exists|s: int|
            #![trigger is_first_id_line(text@, s)]
            is_first_id_line(text@, s) && v@ == trim_of(id_text(text@, s)),
{
    let n = text.len();
    let mut s: usize = 0;
    while s < n
        invariant
            n == text@.len(),
            s <= n,
            starts_line(text@, s as int),
            forall|s2: int| s2 < s ==> !is_id_line(text@, s2),
            forall|s2: int|
                0 <= s2 < s && starts_line(text@, s2) ==> #[trigger] valid_utf8(line_at(text@, s2)),
        decreases n - s,
    {
        let mut k: usize = s;
        while k < n && text[k] != 10u8
            invariant
                n == text@.len(),
                s <= k <= n,
                forall|j: int| s <= j < k ==> text@[j] != 10u8,
            decreases n - k,
        {
            k = k + 1;
        }
        proof {
            lemma_line_end(text@, s as int, k as int);
        }
        let line = copy_range(text, s, k);
        let decoded = utf8_string(line);
        if decoded.is_none() {
            assert forall|s1: int| !(is_first_id_line(text@, s1) && readable_through(text@, s1)) by {
                if is_first_id_line(text@, s1) && readable_through(text@, s1) {
                    assert(valid_utf8(line_at(text@, s as int)));
                }
            }
            return None;
        }
        if k - s >= 3 && text[s] == 73u8 && text[s + 1] == 68u8 && text[s + 2] == 61u8 {
            assert(is_first_id_line(text@, s as int));
            let value = copy_range(text, s + 3, k);
            proof {
                let l = text@.subrange(s as int, k as int);
                assert(l.subrange(0, l.len() as int) =~= l);
                lemma_drop_ascii(l, 0);
                lemma_drop_ascii(l, 1);
                lemma_drop_ascii(l, 2);
                assert(l.subrange(3, l.len() as int) =~= value@);
            }
            match utf8_string(value) {
                Some(v) => {
                    let r = trim_whitespace(&v);
                    assert(readable_through(text@, s as int));
                    return Some(r);
                },
                None => {
                    return None;
                },
            }
        }
        assert forall|s2: int| s2 < k + 1 implies !is_id_line(text@, s2) by {
            if s < s2 && s2 <= k && s2 + 3 <= n {
                assert(text@[s2 - 1] != 10u8);
            }
        }
        assert forall|s2: int|
            0 <= s2 < k + 1 && starts_line(text@, s2) implies #[trigger] valid_utf8(
            line_at(text@, s2),
        ) by {
            if s < s2 && s2 <= k {
                assert(text@[s2 - 1] != 10u8);
            }
        }
        if k == n {
            return None;
        }
        s = k + 1;
    }
    None
}

} // verus!
