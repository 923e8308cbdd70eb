//! Serialisation of word lists through the network's codec.

use maidsafe_utilities::serialisation::SerialisationError;
use vstd::prelude::*;

verus! {

/// Error type of `maidsafe_utilities::serialisation`.
#[verifier::external_type_specification]
#[verifier::external_body]
pub struct ExSerialisationError(SerialisationError);

/// What `maidsafe_utilities::serialisation::serialise` returns for a list
/// of words: the bytes of its encoding, or nothing where it fails. Both are
/// a function of the words alone.
pub uninterp spec fn serialised_words(words: Seq<u64>) -> Option<Seq<u8>>;

/// Calls `maidsafe_utilities::serialisation::serialise` on a list of words.
/// Success is not promised. What is taken on trust is that the codec looks at
/// nothing but its argument: the same words always give the same bytes, or
/// always fail.
#[verifier::external_body]
pub(crate) fn serialise_words(words: &Vec<u64>) -> (r: Result<Vec<u8>, SerialisationError>)
    ensures
        match r {
            Ok(bytes) => serialised_words(words@) == Some(bytes@),
            Err(_) => serialised_words(words@) is None,
        },
{
    maidsafe_utilities::serialisation::serialise(words)
}

} // verus!
