//! Null-terminated UTF-16 strings, the form Windows APIs take text in.

use vstd::prelude::*;

verus! {

/// The UTF-16 code units of one character: itself below U+10000, otherwise a
/// surrogate pair.
pub open spec fn utf16_units(c: char) -> Seq<u16> {
    if (c as u32) < 0x10000 {
        seq![c as u32 as u16]
    } else {
        seq![
            (0xD800 + (c as u32 - 0x10000) / 1024) as u16,
            (0xDC00 + (c as u32 - 0x10000) % 1024) as u16,
        ]
    }
}

/// The UTF-16 encoding of `s`.
pub open spec fn utf16_spec(s: Seq<char>) -> Seq<u16>
    decreases s.len(),
{
    if s.len() == 0 {
        Seq::empty()
    } else {
        utf16_spec(s.drop_last()) + utf16_units(s.last())
    }
}

/// A string without NUL characters encodes without zero units, so the
/// terminating 0 is the only one and the string is not cut short.
pub proof fn law_terminator_is_the_only_zero(s: Seq<char>)
    requires
        forall|i: int| 0 <= i < s.len() ==> #[trigger] s[i] != '\0',
    ensures
        forall|k: int| 0 <= k < utf16_spec(s).len() ==> #[trigger] utf16_spec(s)[k] != 0,
    decreases s.len(),
{
    if s.len() > 0 {
        law_terminator_is_the_only_zero(s.drop_last());
        let prefix = utf16_spec(s.drop_last());
        let last = utf16_units(s.last());
        assert(s.last() == s[s.len() - 1]);
        assert(s.last() != '\0');
        assert(s.last() as u32 != 0) by {
            if s.last() as u32 == 0 {
                vstd::utf8::char_u32_cast(s.last(), 0);
                assert((0u32 as char) == '\0');
            }
        }
        vstd::utf8::char_is_scalar(s.last());
        assert(utf16_spec(s) == prefix + last);
        assert(forall|j: int| 0 <= j < last.len() ==> #[trigger] last[j] != 0);
        assert forall|k: int| 0 <= k < utf16_spec(s).len() implies #[trigger] utf16_spec(s)[k]
            != 0 by {
            if k < prefix.len() {
                assert(utf16_spec(s)[k] == prefix[k]);
            } else {
                assert(utf16_spec(s)[k] == last[k - prefix.len()]);
            }
        }
    }
}

/// `s` as UTF-16 code units followed by a terminating 0.
pub fn to_wide_null(s: &str) -> (r: Vec<u16>)
    ensures
        r@ == utf16_spec(s@) + seq![0u16],
{
    let mut out: Vec<u16> = Vec::new();
    let n = s.unicode_len();
    let mut i: usize = 0;
    while i < n
        invariant
            n == s@.len(),
            i <= n,
            out@ == utf16_spec(s@.take(i as int)),
        decreases n - i,
    {
        let c = s.get_char(i);
        let v = c as u32;
        if v < 0x10000 {
            out.push(v as u16);
        } else {
            let u = v - 0x10000;
            out.push((0xD800 + u / 1024) as u16);
            out.push((0xDC00 + u % 1024) as u16);
        }
        assert(s@.take(i + 1).drop_last() =~= s@.take(i as int));
        assert(utf16_spec(s@.take(i + 1)) =~= utf16_spec(s@.take(i as int)) + utf16_units(c));
        i = i + 1;
    }
    assert(s@.take(n as int) =~= s@);
    out.push(0);
    out
}

} // verus!
