//! What the lexer takes from the Unicode tables: the class of the
//! characters that begin an identifier, from `unicode-xid`, and the
//! normalisation of `unicode-normalization`.

use vstd::prelude::*;
use vstd::string::StringExecFns;

verus! {

/// Whether `c` has the Unicode property XID_Start, by the tables of
/// `unicode-xid`.
pub uninterp spec fn xid_start(c: char) -> bool;

/// The Normalization Form C of `s`, as `unicode-normalization` computes it.
pub uninterp spec fn nfc(s: Seq<char>) -> Seq<char>;

/// Calls `unicode_xid::UnicodeXID::is_xid_start`. Trusted: the answer is the
/// one that [`xid_start`] names.
#[verifier::external_body]
pub(crate) fn is_xid_start(c: char) -> (r: bool)
    ensures
        r == xid_start(c),
{
    unicode_xid::UnicodeXID::is_xid_start(c)
}

/// Calls `unicode_normalization::is_nfc_quick` and says whether it answered
/// `Yes`. Trusted: on `Yes` the text is already in Normalization Form C;
/// nothing is claimed of the other two answers.
#[verifier::external_body]
pub(crate) fn nfc_quick_yes(s: &str) -> (r: bool)
    ensures
        r ==> nfc(s@) == s@,
{
    match unicode_normalization::is_nfc_quick(s.chars()) {
        unicode_normalization::IsNormalized::Yes => true,
        unicode_normalization::IsNormalized::No => false,
        unicode_normalization::IsNormalized::Maybe => false,
    }
}

/// Calls `unicode_normalization::UnicodeNormalization::nfc` on the
/// characters of `s` and collects what it yields. Trusted: the result is the
/// text that [`nfc`] names.
#[verifier::external_body]
pub(crate) fn nfc_compose(s: &str) -> (r: String)
    ensures
        r@ == nfc(s@),
{
    unicode_normalization::UnicodeNormalization::nfc(s).collect()
}

/// The Normalization Form C of `string`. Text that the quick check already
/// accepts is copied; any other is recomposed.
pub fn nfc_normalize(string: &str) -> (r: String)
    ensures
        r@ == nfc(string@),
{
    if nfc_quick_yes(string) {
        String::from_str(string)
    } else {
        nfc_compose(string)
    }
}

} // verus!
