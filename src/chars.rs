//! Character-level helpers over `Vec<char>`, and the std text functions the
//! library relies on.
use vstd::prelude::*;
use vstd::std_specs::iter::IteratorSpec;

verus! {

/// What `char::is_alphanumeric` answers for a character.
pub uninterp spec fn is_alnum(c: char) -> bool;

/// What `str::trim` leaves of a text.
pub uninterp spec fn trimmed(s: Seq<char>) -> Seq<char>;

/// The characters of a text, in order.
pub(crate) fn chars_of(s: &str) -> (r: Vec<char>)
    ensures
        r@ == s@,
{
    let mut v: Vec<char> = Vec::new();
    let mut it = s.chars();
    proof {
        vstd::string::axiom_spec_iter(s);
    }
    loop
        invariant
            it.obeys_prophetic_iter_laws(),
            it.decrease() is Some,
            v@ + it.remaining() == s@,
        ensures
            v@ == s@,
        decreases it.decrease()->0,
    {
        let ghost before = it;
        let c = it.next();
        proof {
            vstd::string::next_postcondition(&before, &it, c);
        }
        match c {
            Some(ch) => {
                assert(v@.push(ch) + it.remaining() =~= v@ + before.remaining());
                v.push(ch);
            },
            None => {
                assert(before.remaining().len() == 0);
                assert(v@ + before.remaining() =~= v@);
                break;
            },
        }
    }
    v
}

/// Relies on `FromIterator<&char> for String`: the text made of these characters.
#[verifier::external_body]
pub(crate) fn string_of(v: &Vec<char>) -> (r: String)
    ensures
        r@ == v@,
{
    v.iter().collect()
}

/// Relies on `char::is_alphanumeric`: whether the character is alphabetic or
/// numeric; among ASCII characters, exactly the letters and digits.
#[verifier::external_body]
pub(crate) fn is_alphanumeric(c: char) -> (r: bool)
    ensures
        r == is_alnum(c),
        (c as u32) < 128 ==> (r <==> ('a' <= c <= 'z' || 'A' <= c <= 'Z' || '0' <= c <= '9')),
{
    c.is_alphanumeric()
}

/// Relies on `str::trim`: the text without leading and trailing white space.
#[verifier::external_body]
pub(crate) fn trim(s: &str) -> (r: String)
    ensures
        r@ == trimmed(s@),
{
    s.trim().to_string()
}

/// The text `a` followed by the text `b`.
pub(crate) fn concat(a: &str, b: &str) -> (r: String)
    ensures
        r@ == a@ + b@,
{
    let mut v = chars_of(a);
    append_chars(&mut v, &chars_of(b));
    string_of(&v)
}

/// Appends the characters of `s` to `v`.
pub(crate) fn append_chars(v: &mut Vec<char>, s: &Vec<char>)
    ensures
        final(v)@ == old(v)@ + s@,
{
    let mut i: usize = 0;
    while i < s.len()
        invariant
            i <= s.len(),
            v@ == old(v)@ + s@.take(i as int),
        decreases s.len() - i,
    {
        v.push(s[i]);
        i = i + 1;
        assert(s@.take(i as int) =~= s@.take(i - 1 as int).push(s@[i - 1 as int]));
    }
    assert(s@.take(s.len() as int) =~= s@);
}

pub open spec fn views_of(ws: Seq<String>) -> Seq<Seq<char>> {
    ws.map_values(|w: String| w@)
}

/// The words joined with the separator `sep`.
pub open spec fn joined_with(ws: Seq<Seq<char>>, sep: char) -> Seq<char>
    decreases ws.len(),
{
    if ws.len() == 0 {
        seq![]
    } else if ws.len() == 1 {
        ws[0]
    } else {
        joined_with(ws.drop_last(), sep) + seq![sep] + ws.last()
    }
}

/// The words from index `start` on, joined with `sep`.
pub fn join_from(words: &Vec<String>, start: usize, sep: char) -> (r: String)
    requires
        start <= words.len(),
    ensures
        r@ == joined_with(views_of(words@).skip(start as int), sep),
{
    let ghost ws = views_of(words@).skip(start as int);
    if start == words.len() {
        assert(ws.len() == 0);
        return string_of(&Vec::new());
    }
    let mut out = chars_of(words[start].as_str());
    let mut i: usize = start + 1;
    assert(ws.take(1).drop_last() =~= Seq::<Seq<char>>::empty());
    assert(out@ == joined_with(ws.take(1), sep));
    while i < words.len()
        invariant
            start < i <= words.len(),
            ws == views_of(words@).skip(start as int),
            out@ == joined_with(ws.take(i - start), sep),
        decreases words.len() - i,
    {
        let w = chars_of(words[i].as_str());
        let ghost before = out@;
        out.push(sep);
        append_chars(&mut out, &w);
        assert(ws.take(i - start + 1).drop_last() =~= ws.take(i - start));
        assert(ws.take(i - start + 1).last() == words@[i as int]@);
        assert(out@ =~= before + seq![sep] + w@);
        i = i + 1;
    }
    assert(ws.take(words.len() - start) =~= ws);
    string_of(&out)
}

} // verus!
