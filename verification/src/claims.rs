//! Claim sets: the named values that a signed token carries.

use vstd::prelude::*;

verus! {

/// The value of one claim. Texts and unsigned numbers are read; a value of
/// any other kind is kept only as being there.
#[derive(Debug)]
pub enum ClaimValue {
    Text(String),
    Number(u64),
    Other,
}

/// A claim's value as plain data.
pub enum ClaimModel {
    Text(Seq<char>),
    Number(u64),
    Other,
}

impl DeepView for ClaimValue {
    type V = ClaimModel;

    open spec fn deep_view(&self) -> ClaimModel {
        match self {
            ClaimValue::Text(s) => ClaimModel::Text(s@),
            ClaimValue::Number(n) => ClaimModel::Number(*n),
            ClaimValue::Other => ClaimModel::Other,
        }
    }
}

/// A named value.
#[derive(Debug)]
pub struct Claim {
    pub name: String,
    pub value: ClaimValue,
}

impl DeepView for Claim {
    type V = (Seq<char>, ClaimModel);

    open spec fn deep_view(&self) -> (Seq<char>, ClaimModel) {
        (self.name@, self.value.deep_view())
    }
}

/// The value that a claim set gives to `name`. Where the name occurs more
/// than once the last occurrence counts.
pub open spec fn claim_named(claims: Seq<(Seq<char>, ClaimModel)>, name: Seq<char>) -> Option<
    ClaimModel,
>
    decreases claims.len(),
{
    if claims.len() == 0 {
        None
    } else if claims.last().0 == name {
        Some(claims.last().1)
    } else {
        claim_named(claims.drop_last(), name)
    }
}

/// The text that a claim set gives to `name`, if it gives one.
pub open spec fn text_named(claims: Seq<(Seq<char>, ClaimModel)>, name: Seq<char>) -> Option<
    Seq<char>,
> {
    match claim_named(claims, name) {
        Some(ClaimModel::Text(s)) => Some(s),
        _ => None,
    }
}

/// The number that a claim set gives to `name`, if it gives one.
pub open spec fn number_named(claims: Seq<(Seq<char>, ClaimModel)>, name: Seq<char>) -> Option<
    u64,
> {
    match claim_named(claims, name) {
        Some(ClaimModel::Number(n)) => Some(n),
        _ => None,
    }
}

/// Looks up the value of the claim `name`.
pub fn find_claim<'a>(claims: &'a Vec<Claim>, name: &str) -> (r: Option<&'a ClaimValue>)
    ensures
        match r {
            Some(v) => claim_named(claims.deep_view(), name@) == Some(v.deep_view()),
            None => claim_named(claims.deep_view(), name@) is None,
        },
{
    let wanted = name.to_owned();
    let mut found: Option<&'a ClaimValue> = None;
    let mut i: usize = 0;
    while i < claims.len()
        invariant
            i <= claims@.len(),
            wanted@ == name@,
            claims.deep_view().len() == claims@.len(),
            forall|k: int| 0 <= k < claims@.len() ==> claims.deep_view()[k] == claims@[k].deep_view(),
            match found {
                Some(v) => claim_named(claims.deep_view().take(i as int), name@) == Some(
                    v.deep_view(),
                ),
                None => claim_named(claims.deep_view().take(i as int), name@) is None,
            },
        decreases claims@.len() - i,
    {
        assert(claims.deep_view().take(i + 1).drop_last() =~= claims.deep_view().take(i as int));
        assert(claims.deep_view().take(i + 1).last() == claims@[i as int].deep_view());
        if claims[i].name == wanted {
            found = Some(&claims[i].value);
        }
        i += 1;
    }
    assert(claims.deep_view().take(claims@.len() as int) =~= claims.deep_view());
    found
}

/// Looks up the text of the claim `name`.
pub fn find_text<'a>(claims: &'a Vec<Claim>, name: &str) -> (r: Option<&'a String>)
    ensures
        match r {
            Some(s) => text_named(claims.deep_view(), name@) == Some(s@),
            None => text_named(claims.deep_view(), name@) is None,
        },
{
    match find_claim(claims, name) {
        Some(ClaimValue::Text(s)) => Some(s),
        _ => None,
    }
}

/// Looks up the number of the claim `name`.
pub fn find_number(claims: &Vec<Claim>, name: &str) -> (r: Option<u64>)
    ensures
        r == number_named(claims.deep_view(), name@),
{
    match find_claim(claims, name) {
        Some(ClaimValue::Number(n)) => Some(*n),
        _ => None,
    }
}

} // verus!
