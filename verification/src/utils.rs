//! Checks on the identifiers that a client supplies.

use crate::models::Field;
use crate::text::same_text;
use vstd::prelude::*;

verus! {

/// Whether `c` may occur in a product identifier: an ASCII letter, an ASCII
/// digit or an underscore.
pub open spec fn is_product_id_char(c: char) -> bool {
    ||| 'a' <= c <= 'z'
    ||| 'A' <= c <= 'Z'
    ||| '0' <= c <= '9'
    ||| c == '_'
}

/// Whether every character of `s` may occur in a product identifier.
pub open spec fn spec_is_valid_product_id(s: Seq<char>) -> bool {
    forall|i: int| 0 <= i < s.len() ==> is_product_id_char(#[trigger] s[i])
}

fn product_id_char(c: char) -> (ok: bool)
    ensures
        ok == is_product_id_char(c),
{
    ('a' <= c && c <= 'z') || ('A' <= c && c <= 'Z') || ('0' <= c && c <= '9') || c == '_'
}

/// Checks that a product identifier is made of ASCII letters, ASCII digits
/// and underscores only. The empty identifier passes.
pub fn is_valid_product_id(product_id: &str) -> (valid: bool)
    ensures
        valid == spec_is_valid_product_id(product_id@),
{
    let chars = product_id.chars();
    for c in it: chars
        invariant
            it.seq() == product_id@,
            forall|i: int| 0 <= i < it.index() ==> is_product_id_char(#[trigger] product_id@[i]),
    {
        if !product_id_char(c) {
            return false;
        }
    }
    true
}

/// The field that `name` names, if it names one. Names are matched letter
/// for letter: a name in another case names nothing.
pub open spec fn spec_parse_field(name: Seq<char>) -> Option<Field> {
    if name == Field::SellPrice.spec_name() {
        Some(Field::SellPrice)
    } else if name == Field::BuyPrice.spec_name() {
        Some(Field::BuyPrice)
    } else if name == Field::SellVolume.spec_name() {
        Some(Field::SellVolume)
    } else if name == Field::BuyVolume.spec_name() {
        Some(Field::BuyVolume)
    } else if name == Field::SellOrders.spec_name() {
        Some(Field::SellOrders)
    } else if name == Field::BuyOrders.spec_name() {
        Some(Field::BuyOrders)
    } else if name == Field::SellMovingWeek.spec_name() {
        Some(Field::SellMovingWeek)
    } else if name == Field::BuyMovingWeek.spec_name() {
        Some(Field::BuyMovingWeek)
    } else {
        None
    }
}

/// Whether `name` is one of the eight field names.
pub open spec fn spec_is_valid_field(name: Seq<char>) -> bool {
    ||| name == "sellPrice"@
    ||| name == "buyPrice"@
    ||| name == "sellVolume"@
    ||| name == "buyVolume"@
    ||| name == "sellOrders"@
    ||| name == "buyOrders"@
    ||| name == "sellMovingWeek"@
    ||| name == "buyMovingWeek"@
}

/// The field that `name` names, if it names one.
pub fn parse_field(name: &str) -> (field: Option<Field>)
    ensures
        field == spec_parse_field(name@),
{
    if same_text(name, Field::SellPrice.name()) {
        Some(Field::SellPrice)
    } else if same_text(name, Field::BuyPrice.name()) {
        Some(Field::BuyPrice)
    } else if same_text(name, Field::SellVolume.name()) {
        Some(Field::SellVolume)
    } else if same_text(name, Field::BuyVolume.name()) {
        Some(Field::BuyVolume)
    } else if same_text(name, Field::SellOrders.name()) {
        Some(Field::SellOrders)
    } else if same_text(name, Field::BuyOrders.name()) {
        Some(Field::BuyOrders)
    } else if same_text(name, Field::SellMovingWeek.name()) {
        Some(Field::SellMovingWeek)
    } else if same_text(name, Field::BuyMovingWeek.name()) {
        Some(Field::BuyMovingWeek)
    } else {
        None
    }
}

/// Checks that a field name is one of the eight that can be asked for. The
/// list is closed, and a name is matched letter for letter.
pub fn is_valid_field(field: &str) -> (valid: bool)
    ensures
        valid == spec_is_valid_field(field@),
{
    parse_field(field).is_some()
}

/// Each field is found again by its own name, and by no other name: the
/// eight names differ from one another.
pub proof fn lemma_field_names_distinct(field: Field, name: Seq<char>)
    ensures
        spec_parse_field(name) == Some(field) <==> name == field.spec_name(),
{
    reveal_strlit("sellPrice");
    reveal_strlit("buyPrice");
    reveal_strlit("sellVolume");
    reveal_strlit("buyVolume");
    reveal_strlit("sellOrders");
    reveal_strlit("buyOrders");
    reveal_strlit("sellMovingWeek");
    reveal_strlit("buyMovingWeek");
    // Names of one length differ at their first or at their fourth or fifth
    // letter.
    assert("sellPrice"@.len() == 9 && "buyVolume"@.len() == 9 && "buyOrders"@.len() == 9);
    assert("sellVolume"@.len() == 10 && "sellOrders"@.len() == 10);
    assert("buyPrice"@.len() == 8 && "sellMovingWeek"@.len() == 14 && "buyMovingWeek"@.len() == 13);
    assert("sellPrice"@[0] != "buyVolume"@[0]);
    assert("sellPrice"@[0] != "buyOrders"@[0]);
    assert("buyVolume"@[3] != "buyOrders"@[3]);
    assert("sellVolume"@[4] != "sellOrders"@[4]);
}

/// A name is valid exactly when it names a field.
pub proof fn lemma_valid_field_names_a_field(name: Seq<char>)
    ensures
        spec_is_valid_field(name) <==> spec_parse_field(name) is Some,
{
}

} // verus!
