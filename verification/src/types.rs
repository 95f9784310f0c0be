//! Engine-neutral value types that cross the decide/enforce seam.

use vstd::prelude::*;
use vstd::std_specs::convert::FromSpecImpl;

verus! {

/// The coarse allow/deny outcome of an authorization decision.
#[derive(Debug, Clone, Copy, PartialEq, Eq, Structural)]
pub enum Decision {
    /// The principal may perform the action.
    Allow,
    /// The principal may not: the query or the action is rejected.
    Deny,
}

/// An engine-neutral attribute value: a string, an integer, a boolean, or a set
/// of values.
#[derive(Debug, PartialEq)]
pub enum AttrValue {
    /// A string attribute, e.g. `role = "analyst"`.
    String(String),
    /// A 64-bit signed integer attribute, e.g. `clearance_level = 3`.
    Long(i64),
    /// A boolean attribute, e.g. `is_admin = true`.
    Bool(bool),
    /// A set of values, e.g. `regions = ["eu", "us"]`.
    SetOf(Vec<AttrValue>),
}

/// The mathematical model of an [`AttrValue`].
#[verifier::ext_equal]
pub enum AttrModel {
    Text(Seq<char>),
    Long(int),
    Bool(bool),
    SetOf(Seq<AttrModel>),
}

impl View for AttrValue {
    type V = AttrModel;

    open spec fn view(&self) -> AttrModel
        decreases self,
    {
        match self {
            AttrValue::String(s) => AttrModel::Text(s@),
            AttrValue::Long(n) => AttrModel::Long(*n as int),
            AttrValue::Bool(b) => AttrModel::Bool(*b),
            AttrValue::SetOf(items) => AttrModel::SetOf(
                Seq::new(
                    items@.len(),
                    |i: int|
                        if 0 <= i < items@.len() {
                            items@[i].view()
                        } else {
                            AttrModel::Bool(false)
                        },
                ),
            ),
        }
    }
}

/// The models of a list of attribute values.
pub open spec fn attr_models(items: Seq<AttrValue>) -> Seq<AttrModel> {
    Seq::new(items.len(), |i: int| items[i]@)
}

/// A set's model, with its members' models as a list.
pub proof fn lemma_set_view(items: Vec<AttrValue>)
    ensures
        AttrValue::SetOf(items)@ == AttrModel::SetOf(attr_models(items@)),
{
    assert(AttrValue::SetOf(items)@->SetOf_0 =~= attr_models(items@));
}

impl Clone for AttrValue {
    fn clone(&self) -> (r: Self)
        ensures
            r@ == self@,
        decreases self,
    {
        match self {
            AttrValue::String(s) => AttrValue::String(s.clone()),
            AttrValue::Long(n) => AttrValue::Long(*n),
            AttrValue::Bool(b) => AttrValue::Bool(*b),
            AttrValue::SetOf(items) => {
                let mut copied: Vec<AttrValue> = Vec::new();
                let mut i: usize = 0;
                while i < items.len()
                    invariant
                        i <= items@.len(),
                        copied@.len() == i,
                        forall|j: int| 0 <= j < i ==> (#[trigger] copied@[j])@ == items@[j]@,
                        *self == AttrValue::SetOf(*items),
                    decreases items@.len() - i,
                {
                    assert(decreases_to!(self => self->SetOf_0@[i as int]));
                    copied.push((&items[i]).clone());
                    i += 1;
                }
                proof {
                    lemma_set_view(*items);
                    lemma_set_view(copied);
                    assert(attr_models(copied@) =~= attr_models(items@));
                }
                AttrValue::SetOf(copied)
            },
        }
    }
}

impl From<&str> for AttrValue {
    fn from(s: &str) -> (r: Self)
        ensures
            r@ == AttrModel::Text(s@),
    {
        AttrValue::String(s.to_owned())
    }
}

impl FromSpecImpl<&str> for AttrValue {
    open spec fn obeys_from_spec() -> bool {
        false
    }

    open spec fn from_spec(s: &str) -> Self {
        arbitrary()
    }
}

impl From<String> for AttrValue {
    fn from(s: String) -> (r: Self) {
        AttrValue::String(s)
    }
}

impl FromSpecImpl<String> for AttrValue {
    open spec fn obeys_from_spec() -> bool {
        true
    }

    open spec fn from_spec(s: String) -> Self {
        AttrValue::String(s)
    }
}

impl From<i64> for AttrValue {
    fn from(n: i64) -> (r: Self) {
        AttrValue::Long(n)
    }
}

impl FromSpecImpl<i64> for AttrValue {
    open spec fn obeys_from_spec() -> bool {
        true
    }

    open spec fn from_spec(n: i64) -> Self {
        AttrValue::Long(n)
    }
}

impl From<bool> for AttrValue {
    fn from(b: bool) -> (r: Self) {
        AttrValue::Bool(b)
    }
}

impl FromSpecImpl<bool> for AttrValue {
    open spec fn obeys_from_spec() -> bool {
        true
    }

    open spec fn from_spec(b: bool) -> Self {
        AttrValue::Bool(b)
    }
}

} // verus!
