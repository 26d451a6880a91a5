//! The two one-to-one tables of the identity registry, kept in `bimap`'s
//! hash bimap.
//!
//! Verus does not look inside a `BiHashMap`. What one holds is named by
//! `token_pairs` (session id to token) and `binding_pairs` (room id to the
//! session id of its Vulcast); every function below is a thin call into the
//! crate whose contract is taken on trust from the crate's source.

use bimap::BiHashMap;
use vstd::prelude::*;

verus! {

/// `bimap::BiHashMap`, a map that is one-to-one in both directions. Nothing
/// is known of a value of it but what the functions below say.
#[verifier::external_type_specification]
#[verifier::external_body]
#[verifier::reject_recursive_types(L)]
#[verifier::reject_recursive_types(R)]
#[verifier::reject_recursive_types(LS)]
#[verifier::reject_recursive_types(RS)]
pub struct ExBiHashMap<L, R, LS, RS>(bimap::BiHashMap<L, R, LS, RS>);

/// The left-to-right pairs held by a bimap of session ids and tokens.
pub uninterp spec fn token_pairs(m: BiHashMap<String, u128>) -> Map<Seq<char>, u128>;

/// The left-to-right pairs held by a bimap of room ids and Vulcast session ids.
pub uninterp spec fn binding_pairs(m: BiHashMap<String, String>) -> Map<Seq<char>, Seq<char>>;

/// The strings of a sequence, each taken by its view.
pub open spec fn views_of(keys: Seq<String>) -> Seq<Seq<char>> {
    Seq::new(keys.len(), |i: int| keys[i]@)
}

/// `BiHashMap::new`: the bimap it returns holds no pair.
#[verifier::external_body]
pub(crate) fn tokens_new() -> (table: BiHashMap<String, u128>)
    ensures
        token_pairs(table).is_empty(),
{
    BiHashMap::new()
}

/// `BiHashMap::insert_no_overwrite`: the pair goes in exactly when neither
/// its left nor its right value is held already; otherwise nothing changes.
#[verifier::external_body]
pub(crate) fn tokens_insert_no_overwrite(
    m: &mut BiHashMap<String, u128>,
    left: String,
    right: u128,
) -> (inserted: bool)
    ensures
        inserted == (!token_pairs(*old(m)).contains_key(left@) && !token_pairs(
            *old(m),
        ).contains_value(right)),
        inserted ==> token_pairs(*final(m)) == token_pairs(*old(m)).insert(left@, right),
        !inserted ==> token_pairs(*final(m)) == token_pairs(*old(m)),
{
    m.insert_no_overwrite(left, right).is_ok()
}

/// `BiHashMap::remove_by_left`: takes out the pair with the given left value
/// and hands back its right value, or changes nothing when there is none.
#[verifier::external_body]
pub(crate) fn tokens_remove_by_left(m: &mut BiHashMap<String, u128>, left: &String) -> (removed:
    Option<u128>)
    ensures
        token_pairs(*final(m)) == token_pairs(*old(m)).remove(left@),
        match removed {
            Some(right) => token_pairs(*old(m)).contains_key(left@) && token_pairs(*old(m))[left@]
                == right,
            None => !token_pairs(*old(m)).contains_key(left@),
        },
{
    m.remove_by_left(left).map(|pair| pair.1)
}

/// `BiHashMap::get_by_left`: the right value paired with the given left value.
#[verifier::external_body]
pub(crate) fn tokens_get_by_left(m: &BiHashMap<String, u128>, left: &String) -> (found: Option<
    u128,
>)
    ensures
        match found {
            Some(right) => token_pairs(*m).contains_key(left@) && token_pairs(*m)[left@] == right,
            None => !token_pairs(*m).contains_key(left@),
        },
{
    m.get_by_left(left).copied()
}

/// `BiHashMap::get_by_right`: a left value paired with the given right value,
/// or nothing when no pair has that right value.
#[verifier::external_body]
pub(crate) fn tokens_get_by_right(m: &BiHashMap<String, u128>, right: u128) -> (found: Option<
    &String,
>)
    ensures
        match found {
            Some(left) => token_pairs(*m).contains_key(left@) && token_pairs(*m)[left@] == right,
            None => !token_pairs(*m).contains_value(right),
        },
{
    m.get_by_right(&right)
}

/// `BiHashMap::left_values`: every left value held, each once, in an order
/// that the crate leaves open.
#[verifier::external_body]
pub(crate) fn tokens_left_values(m: &BiHashMap<String, u128>) -> (keys: Vec<String>)
    ensures
        views_of(keys@).no_duplicates(),
        views_of(keys@).to_set() == token_pairs(*m).dom(),
{
    m.left_values().cloned().collect()
}

/// `BiHashMap::new`: the bimap it returns holds no pair.
#[verifier::external_body]
pub(crate) fn bindings_new() -> (table: BiHashMap<String, String>)
    ensures
        binding_pairs(table).is_empty(),
{
    BiHashMap::new()
}

/// `BiHashMap::insert_no_overwrite`: the pair goes in exactly when neither
/// its left nor its right value is held already; otherwise nothing changes.
#[verifier::external_body]
pub(crate) fn bindings_insert_no_overwrite(
    m: &mut BiHashMap<String, String>,
    left: String,
    right: String,
) -> (inserted: bool)
    ensures
        inserted == (!binding_pairs(*old(m)).contains_key(left@) && !binding_pairs(
            *old(m),
        ).contains_value(right@)),
        inserted ==> binding_pairs(*final(m)) == binding_pairs(*old(m)).insert(left@, right@),
        !inserted ==> binding_pairs(*final(m)) == binding_pairs(*old(m)),
{
    m.insert_no_overwrite(left, right).is_ok()
}

/// `BiHashMap::remove_by_left`: takes out the pair with the given left value
/// and hands back its right value, or changes nothing when there is none.
#[verifier::external_body]
pub(crate) fn bindings_remove_by_left(m: &mut BiHashMap<String, String>, left: &String) -> (removed:
    Option<String>)
    ensures
        binding_pairs(*final(m)) == binding_pairs(*old(m)).remove(left@),
        match removed {
            Some(right) => binding_pairs(*old(m)).contains_key(left@) && binding_pairs(
                *old(m),
            )[left@] == right@,
            None => !binding_pairs(*old(m)).contains_key(left@),
        },
{
    m.remove_by_left(left).map(|pair| pair.1)
}

/// `BiHashMap::get_by_left`: the right value paired with the given left value.
#[verifier::external_body]
pub(crate) fn bindings_get_by_left<'a>(m: &'a BiHashMap<String, String>, left: &String) -> (found:
    Option<&'a String>)
    ensures
        match found {
            Some(right) => binding_pairs(*m).contains_key(left@) && binding_pairs(*m)[left@]
                == right@,
            None => !binding_pairs(*m).contains_key(left@),
        },
{
    m.get_by_left(left)
}

/// `BiHashMap::get_by_right`: a left value paired with the given right value,
/// or nothing when no pair has that right value.
#[verifier::external_body]
pub(crate) fn bindings_get_by_right<'a>(m: &'a BiHashMap<String, String>, right: &String) -> (found:
    Option<&'a String>)
    ensures
        match found {
            Some(left) => binding_pairs(*m).contains_key(left@) && binding_pairs(*m)[left@]
                == right@,
            None => !binding_pairs(*m).contains_value(right@),
        },
{
    m.get_by_right(right)
}

} // verus!
