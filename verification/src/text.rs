//! Verified text helpers: splitting a string at a separator character and
//! comparing two strings, with exact specifications over `Seq<char>`.

use vstd::prelude::*;
use vstd::string::*;

verus! {

/// The pieces of `s` between occurrences of `sep`, in order.  Splitting the
/// empty string yields one empty piece, so the result always holds at least
/// one piece and `n` separators yield `n + 1` pieces.
pub open spec fn split_on(s: Seq<char>, sep: char) -> Seq<Seq<char>>
    decreases s.len(),
{
    if s.len() == 0 {
        seq![Seq::<char>::empty()]
    } else if s[0] == sep {
        seq![Seq::<char>::empty()] + split_on(s.skip(1), sep)
    } else {
        let rest = split_on(s.skip(1), sep);
        seq![seq![s[0]] + rest[0]] + rest.skip(1)
    }
}

pub proof fn lemma_split_on_len(s: Seq<char>, sep: char)
    ensures
        split_on(s, sep).len() >= 1,
    decreases s.len(),
{
    if s.len() == 0 {
    } else {
        lemma_split_on_len(s.skip(1), sep);
    }
}

/// Split `s` at every occurrence of `sep`.
pub fn split_str(s: &str, sep: char) -> (r: Vec<String>)
    ensures
        r.deep_view() == split_on(s@, sep),
{
    let n = s.unicode_len();
    let mut r: Vec<String> = Vec::new();
    let mut start: usize = 0;
    let mut i: usize = 0;
    proof {
        lemma_split_on_len(s@, sep);
        assert(s@.skip(0) =~= s@);
        assert(s@.subrange(0, 0) + split_on(s@, sep)[0] =~= split_on(s@, sep)[0]);
        assert(split_on(s@, sep) =~= r.deep_view() + seq![
            s@.subrange(0, 0) + split_on(s@.skip(0), sep)[0]
        ] + split_on(s@.skip(0), sep).skip(1));
    }
    while i < n
        invariant
            0 <= start <= i <= n,
            n == s@.len(),
            split_on(s@, sep) == r.deep_view() + seq![
                s@.subrange(start as int, i as int) + split_on(s@.skip(i as int), sep)[0]
            ] + split_on(s@.skip(i as int), sep).skip(1),
        decreases n - i,
    {
        let ghost rest_next = split_on(s@.skip(i as int + 1), sep);
        proof {
            lemma_split_on_len(s@.skip(i as int + 1), sep);
            assert(s@.skip(i as int).skip(1) =~= s@.skip(i as int + 1));
            assert(s@.skip(i as int)[0] == s@[i as int]);
        }
        let c = s.get_char(i);
        if c == sep {
            proof {
                assert(split_on(s@.skip(i as int), sep) =~= seq![Seq::<char>::empty()]
                    + rest_next);
                assert(s@.subrange(start as int, i as int) + Seq::<char>::empty() =~= s@
                    .subrange(start as int, i as int));
            }
            let piece = String::from_str(s.substring_char(start, i));
            r.push(piece);
            start = i + 1;
            i = i + 1;
            proof {
                assert(s@.subrange(start as int, i as int) =~= Seq::<char>::empty());
                assert(rest_next =~= seq![rest_next[0]] + rest_next.skip(1));
                assert(split_on(s@, sep) =~= r.deep_view() + seq![
                    s@.subrange(start as int, i as int) + split_on(s@.skip(i as int), sep)[0]
                ] + split_on(s@.skip(i as int), sep).skip(1));
            }
        } else {
            i = i + 1;
            proof {
                let rest_prev = split_on(s@.skip(i as int - 1), sep);
                assert(rest_prev =~= seq![seq![s@[i as int - 1]] + rest_next[0]]
                    + rest_next.skip(1));
                assert(s@.subrange(start as int, i as int) =~= s@.subrange(
                    start as int,
                    i as int - 1,
                ) + seq![s@[i as int - 1]]);
                assert(s@.subrange(start as int, i as int) + rest_next[0] =~= s@.subrange(
                    start as int,
                    i as int - 1,
                ) + rest_prev[0]);
                assert(split_on(s@, sep) =~= r.deep_view() + seq![
                    s@.subrange(start as int, i as int) + split_on(s@.skip(i as int), sep)[0]
                ] + split_on(s@.skip(i as int), sep).skip(1));
            }
        }
    }
    proof {
        assert(s@.skip(n as int) =~= Seq::<char>::empty());
        assert(split_on(s@.skip(n as int), sep) =~= seq![Seq::<char>::empty()]);
        assert(s@.subrange(start as int, n as int) + Seq::<char>::empty() =~= s@.subrange(
            start as int,
            n as int,
        ));
    }
    let last = String::from_str(s.substring_char(start, n));
    r.push(last);
    proof {
        assert(r.deep_view() =~= split_on(s@, sep));
    }
    r
}

/// What a byte sequence decodes to as UTF-8 text, or `None` where it is not
/// valid UTF-8.  The result depends on the bytes alone; the executable
/// decoder below is trusted to return it.
pub uninterp spec fn utf8_decoded(bytes: Seq<u8>) -> Option<Seq<char>>;

/// Relies on String::from_utf8: decodes exactly the valid UTF-8 byte
/// sequences, and the result depends on the bytes alone.
#[verifier::external_body]
pub(crate) fn decode_utf8(bytes: Vec<u8>) -> (r: Option<String>)
    ensures
        match r {
            Some(s) => utf8_decoded(bytes@) == Some(s@),
            None => utf8_decoded(bytes@) is None,
        },
{
    String::from_utf8(bytes).ok()
}

/// Exact string equality, specified over the views.
pub fn eq_str(a: &str, b: &str) -> (r: bool)
    ensures
        r == (a@ == b@),
{
    let na = a.unicode_len();
    let nb = b.unicode_len();
    if na != nb {
        return false;
    }
    let mut i: usize = 0;
    while i < na
        invariant
            0 <= i <= na,
            na == a@.len(),
            na == b@.len(),
            forall|k: int| 0 <= k < i ==> a@[k] == b@[k],
        decreases na - i,
    {
        if a.get_char(i) != b.get_char(i) {
            return false;
        }
        i = i + 1;
    }
    proof {
        assert(a@ =~= b@);
    }
    true
}

} // verus!
