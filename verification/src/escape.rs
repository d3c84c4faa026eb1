//! Escaping strategies: pure mappings from a text value to the form that is
//! safe in a given output context, appended to a byte sink.
//!
//! Every character that any strategy rewrites is ASCII, and an ASCII byte
//! never occurs inside a multi-byte UTF-8 sequence, so the strategies are
//! stated and implemented over the UTF-8 bytes of the value.
use vstd::prelude::*;
use vstd::string::StringSliceAdditionalSpecFns;

verus! {

/// A value could not be written. The strategies of this module append to a
/// buffer in memory and never fail; a strategy from elsewhere may.
#[derive(Debug, Clone, Copy, PartialEq, Eq)]
pub struct WriteError;

/// The bytes of `s` with each byte replaced by `unit` of it, in order.
pub open spec fn expand(s: Seq<u8>, unit: spec_fn(u8) -> Seq<u8>) -> Seq<u8>
    decreases s.len(),
{
    if s.len() == 0 {
        Seq::empty()
    } else {
        expand(s.drop_last(), unit) + unit(s.last())
    }
}

/// Expanding one byte more appends that byte's replacement.
pub proof fn lemma_expand_step(s: Seq<u8>, unit: spec_fn(u8) -> Seq<u8>, i: int)
    requires
        0 <= i < s.len(),
    ensures
        expand(s.take(i + 1), unit) == expand(s.take(i), unit) + unit(s[i]),
{
    assert(s.take(i + 1).drop_last() =~= s.take(i));
}

/// Where `unit` keeps every byte of `s` as it is, so does `expand`.
pub proof fn lemma_expand_identity(s: Seq<u8>, unit: spec_fn(u8) -> Seq<u8>)
    requires
        forall|i: int| 0 <= i < s.len() ==> unit(#[trigger] s[i]) == seq![s[i]],
    ensures
        expand(s, unit) == s,
    decreases s.len(),
{
    if s.len() > 0 {
        lemma_expand_identity(s.drop_last(), unit);
        assert(s.drop_last() + seq![s.last()] =~= s);
    }
}

/// The characters that the HTML strategy rewrites: `"`, `&`, `<`, `>`, `@`.
pub open spec fn is_html_trigger(b: u8) -> bool {
    b == ('"' as u8) || b == ('&' as u8) || b == ('<' as u8) || b == ('>' as u8) || b == ('@' as u8)
}

/// The entity that stands for `b` in HTML, or `b` itself.
pub open spec fn html_unit(b: u8) -> Seq<u8> {
    if b == ('"' as u8) {
        seq![('&' as u8), ('q' as u8), ('u' as u8), ('o' as u8), ('t' as u8), (';' as u8)]
    } else if b == ('&' as u8) {
        seq![('&' as u8), ('a' as u8), ('m' as u8), ('p' as u8), (';' as u8)]
    } else if b == ('<' as u8) {
        seq![('&' as u8), ('l' as u8), ('t' as u8), (';' as u8)]
    } else if b == ('>' as u8) {
        seq![('&' as u8), ('g' as u8), ('t' as u8), (';' as u8)]
    } else if b == ('@' as u8) {
        seq![('&' as u8), ('#' as u8), ('6' as u8), ('4' as u8), (';' as u8)]
    } else {
        seq![b]
    }
}

pub open spec fn html_escaped(s: Seq<u8>) -> Seq<u8> {
    expand(s, |b: u8| html_unit(b))
}

/// The characters that the TSV strategy rewrites: line feed, carriage
/// return, tab and backslash.
pub open spec fn is_tsv_trigger(b: u8) -> bool {
    b == ('\n' as u8) || b == ('\r' as u8) || b == ('\t' as u8) || b == ('\\' as u8)
}

/// The backslash pair that stands for `b` in TSV, or `b` itself.
pub open spec fn tsv_unit(b: u8) -> Seq<u8> {
    if b == ('\n' as u8) {
        seq![('\\' as u8), ('n' as u8)]
    } else if b == ('\r' as u8) {
        seq![('\\' as u8), ('r' as u8)]
    } else if b == ('\t' as u8) {
        seq![('\\' as u8), ('t' as u8)]
    } else if b == ('\\' as u8) {
        seq![('\\' as u8), ('\\' as u8)]
    } else {
        seq![b]
    }
}

pub open spec fn tsv_escaped(s: Seq<u8>) -> Seq<u8> {
    expand(s, |b: u8| tsv_unit(b))
}

/// The characters that the URL strategy percent-encodes:
/// `! # $ & ' ( ) * + , / : ; = ? @ [ ] %`.
pub open spec fn is_url_reserved(b: u8) -> bool {
    b == ('!' as u8) || b == ('#' as u8) || b == ('$' as u8) || b == ('&' as u8) || b == ('\'' as u8) || b == ('(' as u8) || b == (')' as u8)
        || b == ('*' as u8) || b == ('+' as u8) || b == (',' as u8) || b == ('/' as u8) || b == (':' as u8) || b == (';' as u8) || b == ('=' as u8)
        || b == ('?' as u8) || b == ('@' as u8) || b == ('[' as u8) || b == (']' as u8) || b == ('%' as u8)
}

/// The characters that the URL strategy rewrites: the reserved ones and space.
pub open spec fn is_url_trigger(b: u8) -> bool {
    is_url_reserved(b) || b == (' ' as u8)
}

/// The upper-case hexadecimal digit of a value below sixteen.
pub open spec fn hex_digit(n: u8) -> u8 {
    if n < 10 {
        (('0' as u8) + n) as u8
    } else {
        (('A' as u8) + n - 10) as u8
    }
}

/// What stands for `b` in a URL: `+` for a space, `%` and two hexadecimal
/// digits for a reserved character, else `b` itself.
pub open spec fn url_unit(b: u8) -> Seq<u8> {
    if b == (' ' as u8) {
        seq![('+' as u8)]
    } else if is_url_reserved(b) {
        seq![('%' as u8), hex_digit(b / 16), hex_digit(b % 16)]
    } else {
        seq![b]
    }
}

pub open spec fn url_escaped(s: Seq<u8>) -> Seq<u8> {
    expand(s, |b: u8| url_unit(b))
}

/// The characters that force a CSV field into quotes: `"`, line feed,
/// carriage return, `,` and `;`.
pub open spec fn is_csv_trigger(b: u8) -> bool {
    b == ('"' as u8) || b == ('\n' as u8) || b == ('\r' as u8) || b == (',' as u8) || b == (';' as u8)
}

pub open spec fn needs_quoting(s: Seq<u8>) -> bool {
    exists|i: int| 0 <= i < s.len() && is_csv_trigger(#[trigger] s[i])
}

/// A quote character doubled, any other byte as it is.
pub open spec fn csv_unit(b: u8) -> Seq<u8> {
    if b == ('"' as u8) {
        seq![('"' as u8), ('"' as u8)]
    } else {
        seq![b]
    }
}

/// A field without a trigger character stays as it is; any other is wrapped
/// in quotes, with every quote inside it doubled.
pub open spec fn csv_escaped(s: Seq<u8>) -> Seq<u8> {
    if needs_quoting(s) {
        seq![('"' as u8)] + expand(s, |b: u8| csv_unit(b)) + seq![('"' as u8)]
    } else {
        s
    }
}

/// An escaping strategy: appends the escaped form of a value to a sink.
pub trait Escape {
    /// The escaped form of the UTF-8 bytes `val`.
    spec fn escaped(&self, val: Seq<u8>) -> Seq<u8>;

    /// Whether the strategy can write the value with the UTF-8 bytes `val`.
    spec fn accepts(&self, val: Seq<u8>) -> bool;

    /// Appends the escaped form of `val` to `to`, if the strategy accepts
    /// the value, and fails if it does not.
    fn write(&self, to: &mut Vec<u8>, val: &str) -> (r: Result<(), WriteError>)
        ensures
            r is Ok <==> self.accepts(val.spec_bytes()),
            r is Ok ==> final(to)@ == old(to)@ + self.escaped(val.spec_bytes()),
    ;
}

/// Passes every value through unchanged.
pub struct NoEscape;

/// Escapes for HTML text and attribute values.
pub struct Html;

/// Escapes one field of a CSV record.
pub struct Csv;

/// Escapes one field of a TSV record.
pub struct Tsv;

/// Escapes one component of a URL.
pub struct Url;

impl Escape for NoEscape {
    open spec fn escaped(&self, val: Seq<u8>) -> Seq<u8> {
        val
    }

    open spec fn accepts(&self, val: Seq<u8>) -> bool {
        true
    }

    fn write(&self, to: &mut Vec<u8>, val: &str) -> (r: Result<(), WriteError>)
        ensures
            r is Ok,
    {
        to.extend_from_slice(val.as_bytes());
        Ok(())
    }
}

impl Escape for Html {
    open spec fn escaped(&self, val: Seq<u8>) -> Seq<u8> {
        html_escaped(val)
    }

    open spec fn accepts(&self, val: Seq<u8>) -> bool {
        true
    }

    fn write(&self, to: &mut Vec<u8>, val: &str) -> (r: Result<(), WriteError>)
        ensures
            r is Ok,
    {
        let bytes = val.as_bytes();
        let ghost unit = |b: u8| html_unit(b);
        let mut i: usize = 0;
        assert(bytes@.take(0) =~= Seq::<u8>::empty());
        while i < bytes.len()
            invariant
                i <= bytes.len(),
                forall|b: u8| #[trigger] unit(b) == html_unit(b),
                to@ == old(to)@ + expand(bytes@.take(i as int), unit),
            decreases bytes.len() - i,
        {
            let b = bytes[i];
            proof {
                lemma_expand_step(bytes@, unit, i as int);
            }
            if b == ('"' as u8) {
                to.push(('&' as u8));
                to.push(('q' as u8));
                to.push(('u' as u8));
                to.push(('o' as u8));
                to.push(('t' as u8));
                to.push((';' as u8));
            } else if b == ('&' as u8) {
                to.push(('&' as u8));
                to.push(('a' as u8));
                to.push(('m' as u8));
                to.push(('p' as u8));
                to.push((';' as u8));
            } else if b == ('<' as u8) {
                to.push(('&' as u8));
                to.push(('l' as u8));
                to.push(('t' as u8));
                to.push((';' as u8));
            } else if b == ('>' as u8) {
                to.push(('&' as u8));
                to.push(('g' as u8));
                to.push(('t' as u8));
                to.push((';' as u8));
            } else if b == ('@' as u8) {
                to.push(('&' as u8));
                to.push(('#' as u8));
                to.push(('6' as u8));
                to.push(('4' as u8));
                to.push((';' as u8));
            } else {
                to.push(b);
            }
            assert(to@ =~= old(to)@ + (expand(bytes@.take(i as int), unit) + html_unit(b)));
            i += 1;
        }
        assert(bytes@.take(i as int) =~= bytes@);
        Ok(())
    }
}

impl Escape for Tsv {
    open spec fn escaped(&self, val: Seq<u8>) -> Seq<u8> {
        tsv_escaped(val)
    }

    open spec fn accepts(&self, val: Seq<u8>) -> bool {
        true
    }

    fn write(&self, to: &mut Vec<u8>, val: &str) -> (r: Result<(), WriteError>)
        ensures
            r is Ok,
    {
        let bytes = val.as_bytes();
        let ghost unit = |b: u8| tsv_unit(b);
        let mut i: usize = 0;
        assert(bytes@.take(0) =~= Seq::<u8>::empty());
        while i < bytes.len()
            invariant
                i <= bytes.len(),
                forall|b: u8| #[trigger] unit(b) == tsv_unit(b),
                to@ == old(to)@ + expand(bytes@.take(i as int), unit),
            decreases bytes.len() - i,
        {
            let b = bytes[i];
            proof {
                lemma_expand_step(bytes@, unit, i as int);
            }
            if b == ('\n' as u8) {
                to.push(('\\' as u8));
                to.push(('n' as u8));
            } else if b == ('\r' as u8) {
                to.push(('\\' as u8));
                to.push(('r' as u8));
            } else if b == ('\t' as u8) {
                to.push(('\\' as u8));
                to.push(('t' as u8));
            } else if b == ('\\' as u8) {
                to.push(('\\' as u8));
                to.push(('\\' as u8));
            } else {
                to.push(b);
            }
            assert(to@ =~= old(to)@ + (expand(bytes@.take(i as int), unit) + tsv_unit(b)));
            i += 1;
        }
        assert(bytes@.take(i as int) =~= bytes@);
        Ok(())
    }
}

/// Whether `b` is one of the characters that the URL strategy percent-encodes.
fn url_reserved(b: u8) -> (r: bool)
    ensures
        r == is_url_reserved(b),
{
    b == ('!' as u8) || b == ('#' as u8) || b == ('$' as u8) || b == ('&' as u8) || b == ('\'' as u8) || b == ('(' as u8) || b == (')' as u8)
        || b == ('*' as u8) || b == ('+' as u8) || b == (',' as u8) || b == ('/' as u8) || b == (':' as u8) || b == (';' as u8) || b == ('=' as u8)
        || b == ('?' as u8) || b == ('@' as u8) || b == ('[' as u8) || b == (']' as u8) || b == ('%' as u8)
}

fn hex(n: u8) -> (r: u8)
    requires
        n < 16,
    ensures
        r == hex_digit(n),
{
    if n < 10 {
        ('0' as u8) + n
    } else {
        ('A' as u8) + (n - 10)
    }
}

impl Escape for Url {
    open spec fn escaped(&self, val: Seq<u8>) -> Seq<u8> {
        url_escaped(val)
    }

    open spec fn accepts(&self, val: Seq<u8>) -> bool {
        true
    }

    fn write(&self, to: &mut Vec<u8>, val: &str) -> (r: Result<(), WriteError>)
        ensures
            r is Ok,
    {
        let bytes = val.as_bytes();
        let ghost unit = |b: u8| url_unit(b);
        let mut i: usize = 0;
        assert(bytes@.take(0) =~= Seq::<u8>::empty());
        while i < bytes.len()
            invariant
                i <= bytes.len(),
                forall|b: u8| #[trigger] unit(b) == url_unit(b),
                to@ == old(to)@ + expand(bytes@.take(i as int), unit),
            decreases bytes.len() - i,
        {
            let b = bytes[i];
            proof {
                lemma_expand_step(bytes@, unit, i as int);
            }
            if b == (' ' as u8) {
                to.push(('+' as u8));
            } else if url_reserved(b) {
                to.push(('%' as u8));
                to.push(hex(b / 16));
                to.push(hex(b % 16));
            } else {
                to.push(b);
            }
            assert(to@ =~= old(to)@ + (expand(bytes@.take(i as int), unit) + url_unit(b)));
            i += 1;
        }
        assert(bytes@.take(i as int) =~= bytes@);
        Ok(())
    }
}

/// Whether a field holds a character that forces it into quotes.
fn has_csv_trigger(bytes: &[u8]) -> (r: bool)
    ensures
        r == needs_quoting(bytes@),
{
    let mut i: usize = 0;
    while i < bytes.len()
        invariant
            i <= bytes.len(),
            forall|j: int| 0 <= j < i ==> !is_csv_trigger(#[trigger] bytes@[j]),
        decreases bytes.len() - i,
    {
        let b = bytes[i];
        if b == ('"' as u8) || b == ('\n' as u8) || b == ('\r' as u8) || b == (',' as u8) || b == (';' as u8) {
            return true;
        }
        i += 1;
    }
    false
}

impl Escape for Csv {
    open spec fn escaped(&self, val: Seq<u8>) -> Seq<u8> {
        csv_escaped(val)
    }

    open spec fn accepts(&self, val: Seq<u8>) -> bool {
        true
    }

    fn write(&self, to: &mut Vec<u8>, val: &str) -> (r: Result<(), WriteError>)
        ensures
            r is Ok,
    {
        let bytes = val.as_bytes();
        if !has_csv_trigger(bytes) {
            to.extend_from_slice(bytes);
            return Ok(());
        }
        let ghost unit = |b: u8| csv_unit(b);
        to.push(('"' as u8));
        let mut i: usize = 0;
        assert(bytes@.take(0) =~= Seq::<u8>::empty());
        while i < bytes.len()
            invariant
                i <= bytes.len(),
                forall|b: u8| #[trigger] unit(b) == csv_unit(b),
                to@ == old(to)@ + seq![('"' as u8)] + expand(bytes@.take(i as int), unit),
            decreases bytes.len() - i,
        {
            let b = bytes[i];
            proof {
                lemma_expand_step(bytes@, unit, i as int);
            }
            if b == ('"' as u8) {
                to.push(('"' as u8));
                to.push(('"' as u8));
            } else {
                to.push(b);
            }
            assert(to@ =~= old(to)@ + seq![('"' as u8)] + (expand(bytes@.take(i as int), unit)
                + csv_unit(b)));
            i += 1;
        }
        assert(bytes@.take(i as int) =~= bytes@);
        to.push(('"' as u8));
        assert(to@ =~= old(to)@ + (seq![('"' as u8)] + expand(bytes@, unit) + seq![('"' as u8)]));
        Ok(())
    }
}

/// A value without a character that HTML rewrites is written as it is.
pub proof fn lemma_html_plain_unchanged(s: Seq<u8>)
    requires
        forall|i: int| 0 <= i < s.len() ==> !is_html_trigger(#[trigger] s[i]),
    ensures
        html_escaped(s) == s,
{
    lemma_expand_identity(s, |b: u8| html_unit(b));
}

/// A value without a character that TSV rewrites is written as it is.
pub proof fn lemma_tsv_plain_unchanged(s: Seq<u8>)
    requires
        forall|i: int| 0 <= i < s.len() ==> !is_tsv_trigger(#[trigger] s[i]),
    ensures
        tsv_escaped(s) == s,
{
    lemma_expand_identity(s, |b: u8| tsv_unit(b));
}

/// A value without a character that the URL strategy rewrites is written as
/// it is.
pub proof fn lemma_url_plain_unchanged(s: Seq<u8>)
    requires
        forall|i: int| 0 <= i < s.len() ==> !is_url_trigger(#[trigger] s[i]),
    ensures
        url_escaped(s) == s,
{
    lemma_expand_identity(s, |b: u8| url_unit(b));
}

/// A field without a character that forces quotes is written as it is.
pub proof fn lemma_csv_plain_unchanged(s: Seq<u8>)
    requires
        forall|i: int| 0 <= i < s.len() ==> !is_csv_trigger(#[trigger] s[i]),
    ensures
        csv_escaped(s) == s,
{
}

/// Without escaping every value is written as it is.
pub proof fn lemma_no_escape_unchanged(s: Seq<u8>)
    ensures
        NoEscape.escaped(s) == s,
{
}

} // verus!
