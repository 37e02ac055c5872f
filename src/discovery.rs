//! Which entries of a directory listing are worth fingerprinting.
use vstd::prelude::*;
use crate::naming::{is_fingerprint, stem, stem_of, append_bytes};
use crate::organiser::OrganiseError;

verus! {

/// How thoroughly a directory is examined.
#[derive(Clone, Copy, Debug, PartialEq, Eq, Structural)]
pub enum Mode {
    /// Skip entries whose stem already has the shape of a fingerprint.
    Fast,
    /// Examine every entry.
    Full,
}

/// The pattern of a stem that already looks like a fingerprint.
pub open spec fn fingerprint_pattern_text() -> Seq<char> {
    "^[a-f0-9]{32}$"@
}

/// A compiled regular expression over bytes, with the text it was compiled from.
pub struct NamePattern {
    re: regex::bytes::Regex,
    source: Ghost<Seq<char>>,
}

#[verifier::external_type_specification]
#[verifier::external_body]
pub struct ExBytesRegex(regex::bytes::Regex);

impl NamePattern {
    /// The text that the pattern was compiled from.
    pub closed spec fn source(&self) -> Seq<char> {
        self.source@
    }
}

/// Relies on regex::bytes::Regex::new: compiles `pattern`, and fails only on
/// invalid syntax or a pattern over the default size limit, which the short,
/// valid pattern of fingerprints is not.
#[verifier::external_body]
fn compile(pattern: &str) -> (r: Option<NamePattern>)
    ensures
        r matches Some(p) ==> p.source() == pattern@,
        pattern@ == fingerprint_pattern_text() ==> r is Some,
{
    regex::bytes::Regex::new(pattern).ok().map(|re| NamePattern { re, source: Ghost(pattern@) })
}

/// Relies on regex::bytes::Regex::is_match: whether `p` matches somewhere in
/// `text`. The anchored pattern of fingerprints matches exactly the texts of
/// 32 bytes, each one of `0`..`9` or `a`..`f`.
#[verifier::external_body]
fn is_match(p: &NamePattern, text: &Vec<u8>) -> (r: bool)
    ensures
        p.source() == fingerprint_pattern_text() ==> r == is_fingerprint(text@),
{
    p.re.is_match(text.as_slice())
}

/// The pattern of stems that already look like fingerprints, once compiled.
pub fn fingerprint_pattern() -> (r: Option<NamePattern>)
    ensures
        r is Some,
        r matches Some(p) ==> p.source() == fingerprint_pattern_text(),
{
    compile("^[a-f0-9]{32}$")
}

/// Whether an entry named `name` is examined in `mode`.
pub open spec fn is_candidate_of(mode: Mode, name: Seq<u8>) -> bool {
    match mode {
        Mode::Full => true,
        Mode::Fast => !is_fingerprint(stem_of(name)),
    }
}

/// Whether the entry named `name` is examined in `mode`: in fast mode, only
/// when its stem is not already a fingerprint. A stem that is not valid text
/// never has that shape, so such an entry is examined.
pub fn is_candidate(name: &Vec<u8>, mode: Mode, pattern: &NamePattern) -> (r: bool)
    requires
        mode == Mode::Fast ==> pattern.source() == fingerprint_pattern_text(),
    ensures
        r == is_candidate_of(mode, name@),
{
    match mode {
        Mode::Full => true,
        Mode::Fast => {
            let s = stem(name);
            !is_match(pattern, &s)
        },
    }
}

/// The names of a listing that are examined in `mode`, in listing order.
pub fn select_candidates(names: &Vec<Vec<u8>>, mode: Mode, pattern: &NamePattern) -> (r: Vec<Vec<u8>>)
    requires
        mode == Mode::Fast ==> pattern.source() == fingerprint_pattern_text(),
    ensures
        r.deep_view() == names.deep_view().filter(|n: Seq<u8>| is_candidate_of(mode, n)),
{
    let ghost keep = |n: Seq<u8>| is_candidate_of(mode, n);
    let mut r: Vec<Vec<u8>> = Vec::new();
    let mut i: usize = 0;
    while i < names.len()
        invariant
            i <= names.len(),
            mode == Mode::Fast ==> pattern.source() == fingerprint_pattern_text(),
            keep == (|n: Seq<u8>| is_candidate_of(mode, n)),
            r.deep_view() == names.deep_view().take(i as int).filter(keep),
        decreases names.len() - i,
    {
        let ghost prefix = names.deep_view().take(i as int + 1);
        proof {
            reveal(Seq::filter);
            assert(prefix.drop_last() =~= names.deep_view().take(i as int));
            assert(prefix.last() == names@[i as int]@);
        }
        if is_candidate(&names[i], mode, pattern) {
            let mut copy: Vec<u8> = Vec::new();
            append_bytes(&mut copy, &names[i]);
            r.push(copy);
            assert(r.deep_view() =~= prefix.filter(keep));
        } else {
            assert(r.deep_view() =~= prefix.filter(keep));
        }
        i = i + 1;
    }
    assert(names.deep_view().take(names.len() as int) =~= names.deep_view());
    r
}

/// The discovery phase of a run, from the directory's listing (`None` when
/// the directory could not be listed): the candidates to organise, or the
/// error that ends the whole run before anything is changed.
pub fn discover(listing: Option<Vec<Vec<u8>>>, mode: Mode, pattern: &NamePattern) -> (r: Result<
    Vec<Vec<u8>>,
    OrganiseError,
>)
    requires
        listing is Some && mode == Mode::Fast ==> pattern.source() == fingerprint_pattern_text(),
    ensures
        listing is None <==> r == Err::<Vec<Vec<u8>>, OrganiseError>(OrganiseError::FailedToListDirectory),
        listing matches Some(names) ==> (r matches Ok(c) && c.deep_view() == names.deep_view().filter(
            |n: Seq<u8>| is_candidate_of(mode, n),
        )),
{
    match listing {
        None => Err(OrganiseError::FailedToListDirectory),
        Some(names) => Ok(select_candidates(&names, mode, pattern)),
    }
}

/// Fast mode leaves out exactly the entries whose stem is 32 lowercase
/// hexadecimal digits; full mode leaves out none.
pub proof fn lemma_fast_mode_skips_fingerprints(name: Seq<u8>)
    ensures
        is_fingerprint(stem_of(name)) <==> !is_candidate_of(Mode::Fast, name),
        is_candidate_of(Mode::Full, name),
{
}

} // verus!
