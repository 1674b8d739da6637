//! Text handling for directory records: decoding raw C-string bytes into
//! owned strings, and the comma-splitting and whitespace-trimming applied to
//! attribute values.

use vstd::prelude::*;

verus! {

use vstd::utf8::{valid_utf8, decode_utf8};

/// Relies on `core::str::from_utf8`: it returns `Ok` exactly when the bytes
/// are a valid UTF-8 encoding, and the resulting string's characters are the
/// decoding of those bytes (the byte view of a `str` is the UTF-8 encoding
/// of its character view).
#[verifier::external_body]
pub(crate) fn try_decode(b: &[u8]) -> (r: Option<String>)
    ensures
        r is Some <==> valid_utf8(b@),
        r matches Some(s) ==> s@ == decode_utf8(b@),
{
    match core::str::from_utf8(b) {
        Ok(s) => Some(s.to_owned()),
        Err(_) => None,
    }
}

/// The whitespace characters removed from the ends of each attribute piece.
pub open spec fn is_space(c: char) -> bool {
    c == ' ' || c == '\t' || c == '\n' || c == '\r'
}

/// The value with leading and trailing whitespace removed.
pub open spec fn trim_spec(s: Seq<char>) -> Seq<char>
    decreases s.len(),
{
    if s.len() == 0 {
        s
    } else if is_space(s[0]) {
        trim_spec(s.drop_first())
    } else if is_space(s[s.len() - 1]) {
        trim_spec(s.drop_last())
    } else {
        s
    }
}

/// The comma-separated pieces of a value, in order, none dropped and none
/// deduplicated: a value holding n commas always splits into n + 1 pieces.
pub open spec fn split_commas(s: Seq<char>) -> Seq<Seq<char>>
    decreases s.len(),
{
    if s.len() == 0 {
        seq![Seq::<char>::empty()]
    } else if s[0] == ',' {
        seq![Seq::<char>::empty()] + split_commas(s.drop_first())
    } else {
        let rest = split_commas(s.drop_first());
        seq![seq![s[0]] + rest[0]] + rest.drop_first()
    }
}

/// A split never comes out empty: even the empty value yields one piece.
pub proof fn lemma_split_nonempty(s: Seq<char>)
    ensures
        split_commas(s).len() >= 1,
    decreases s.len(),
{
    if s.len() != 0 {
        lemma_split_nonempty(s.drop_first());
    }
}

/// A comma-free prefix of length `b` is the whole first piece: if the prefix
/// runs to the end the value is a single piece, and if a comma follows it the
/// remaining pieces are the split of what stands after that comma.
pub proof fn lemma_split_segment(s: Seq<char>, b: int)
    requires
        0 <= b <= s.len(),
        forall|i: int| 0 <= i < b ==> s[i] != ',',
        b < s.len() ==> s[b] == ',',
    ensures
        b == s.len() ==> split_commas(s) == seq![s],
        b < s.len() ==> split_commas(s) == seq![s.take(b)] + split_commas(s.skip(b + 1)),
    decreases b,
{
    lemma_split_nonempty(s);
    if b == 0 {
        if b < s.len() {
            assert(s[0] == ',');
            assert(s.drop_first() =~= s.skip(1));
            assert(s.take(0) =~= Seq::<char>::empty());
            assert(split_commas(s) =~~= seq![s.take(0)] + split_commas(s.skip(1)));
        } else {
            assert(s.len() == 0);
            assert(split_commas(s) =~~= seq![s]);
        }
    } else {
        assert(s[0] != ',');
        let t = s.drop_first();
        assert(forall|i: int| 0 <= i < b - 1 ==> t[i] != ',');
        lemma_split_segment(t, b - 1);
        lemma_split_nonempty(t);
        let rest = split_commas(t);
        if b == s.len() {
            assert(rest == seq![t]);
            assert(seq![s[0]] + rest[0] =~= s);
            assert(split_commas(s) =~~= seq![s]);
        } else {
            assert(t[b - 1] == ',');
            assert(rest == seq![t.take(b - 1)] + split_commas(t.skip(b)));
            assert(rest[0] == t.take(b - 1));
            assert(seq![s[0]] + t.take(b - 1) =~= s.take(b));
            assert(rest.drop_first() =~= split_commas(t.skip(b)));
            assert(t.skip(b) =~= s.skip(b + 1));
            assert(split_commas(s) =~~= seq![s.take(b)] + split_commas(s.skip(b + 1)));
        }
    }
}

/// Trimming keeps exactly the span between the first and last characters
/// that are not whitespace.
pub proof fn lemma_trim_bounds(s: Seq<char>, a: int, b: int)
    requires
        0 <= a <= b <= s.len(),
        forall|i: int| 0 <= i < a ==> is_space(s[i]),
        forall|i: int| b <= i < s.len() ==> is_space(s[i]),
        a < b ==> !is_space(s[a]) && !is_space(s[b - 1]),
    ensures
        trim_spec(s) == s.subrange(a, b),
    decreases s.len(),
{
    if s.len() == 0 {
        assert(trim_spec(s) =~= s.subrange(a, b));
    } else if a > 0 {
        assert(is_space(s[0]));
        let t = s.drop_first();
        lemma_trim_bounds(t, a - 1, b - 1);
        assert(t.subrange(a - 1, b - 1) =~= s.subrange(a, b));
    } else if a == b {
        assert(is_space(s[0]));
        let t = s.drop_first();
        lemma_trim_bounds(t, 0, 0);
        assert(t.subrange(0, 0) =~= s.subrange(a, b));
    } else if b < s.len() {
        assert(!is_space(s[0]));
        assert(is_space(s[s.len() - 1]));
        let t = s.drop_last();
        lemma_trim_bounds(t, a, b);
        assert(t.subrange(a, b) =~= s.subrange(a, b));
    } else {
        assert(!is_space(s[0]));
        assert(!is_space(s[s.len() - 1]));
        assert(trim_spec(s) == s);
        assert(s.subrange(a, b) =~= s);
    }
}

fn is_space_char(c: char) -> (r: bool)
    ensures
        r == is_space(c),
{
    c == ' ' || c == '\t' || c == '\n' || c == '\r'
}

/// Split a value at its commas and trim each piece: the executable form of
/// `split_commas` followed by `trim_spec`, piece for piece, order kept.
pub fn split_and_trim(s: &str) -> (r: Vec<String>)
    ensures
        r.deep_view() == split_commas(s@).map_values(|p: Seq<char>| trim_spec(p)),
{
    let n = s.unicode_len();
    let mut r: Vec<String> = Vec::new();
    let mut start: usize = 0;
    proof {
        assert(s@.skip(0) =~= s@);
        assert(r.deep_view() =~= Seq::<Seq<char>>::empty());
    }
    loop
        invariant_except_break
            start <= n,
            n == s@.len(),
            split_commas(s@).map_values(|p: Seq<char>| trim_spec(p)) =~= r.deep_view()
                + split_commas(s@.skip(start as int)).map_values(|p: Seq<char>| trim_spec(p)),
        ensures
            r.deep_view() == split_commas(s@).map_values(|p: Seq<char>| trim_spec(p)),
        decreases n - start,
    {
        let mut end: usize = start;
        while end < n && s.get_char(end) != ','
            invariant
                start <= end <= n,
                n == s@.len(),
                forall|k: int| start <= k < end ==> s@[k] != ',',
            decreases n - end,
        {
            end += 1;
        }
        let mut a: usize = start;
        let mut b: usize = end;
        while a < b && is_space_char(s.get_char(a))
            invariant
                start <= a <= b <= end <= n,
                n == s@.len(),
                forall|k: int| start <= k < a ==> is_space(s@[k]),
            decreases b - a,
        {
            a += 1;
        }
        while a < b && is_space_char(s.get_char(b - 1))
            invariant
                start <= a <= b <= end <= n,
                n == s@.len(),
                forall|k: int| b <= k < end ==> is_space(s@[k]),
                a < b ==> !is_space(s@[a as int]),
            decreases b - a,
        {
            b -= 1;
        }
        let piece = s.substring_char(a, b).to_owned();
        proof {
            let seg = s@.skip(start as int);
            lemma_split_segment(seg, end - start);
            assert(seg.take(end - start) =~= s@.subrange(start as int, end as int));
            lemma_trim_bounds(
                s@.subrange(start as int, end as int),
                a - start,
                b - start,
            );
            assert(s@.subrange(start as int, end as int).subrange(a - start, b - start)
                =~= s@.subrange(a as int, b as int));
            assert(piece@ == trim_spec(s@.subrange(start as int, end as int)));
        }
        r.push(piece);
        if end == n {
            proof {
                let seg = s@.skip(start as int);
                let f = |p: Seq<char>| trim_spec(p);
                assert(split_commas(seg).map_values(f) =~= seq![f(seg)]);
            }
            break;
        }
        proof {
            let seg = s@.skip(start as int);
            let f = |p: Seq<char>| trim_spec(p);
            assert(split_commas(seg).map_values(f)
                =~= seq![f(seg.take(end - start))]
                    + split_commas(seg.skip(end - start + 1)).map_values(f));
            assert(seg.skip(end - start + 1) =~= s@.skip(end + 1));
        }
        start = end + 1;
    }
    r
}

} // verus!
