//! The authenticated principal a query runs as, and the identity facts that
//! enrich it.

use vstd::prelude::*;

use crate::names::NameMap;
use crate::types::{AttrModel, AttrValue};

verus! {

/// The principal on whose behalf a query executes, with the attributes policies
/// condition on and the groups they resolve membership against.
#[derive(Debug, Clone)]
pub struct PrincipalIdentity {
    /// The principal's opaque uid, e.g. `User::"alice"`.
    pub uid: String,
    /// Principal attributes.
    pub attributes: NameMap<AttrValue>,
    /// The principal's direct group memberships, as uid strings.
    pub groups: Vec<String>,
    /// The transitive group hierarchy to resolve membership against.
    pub group_hierarchy: Vec<Group>,
}

/// A node in the group hierarchy: a group uid and its direct parent group uids.
#[derive(Debug, Clone, PartialEq, Eq)]
pub struct Group {
    /// The group's uid, e.g. `UserGroup::"readers"`.
    pub uid: String,
    /// The group's direct parent group uids.
    pub parents: Vec<String>,
}

impl PrincipalIdentity {
    /// A principal with a uid and no attributes or groups.
    pub fn new(uid: &str) -> (r: Self)
        ensures
            r.uid@ == uid@,
            r.attributes@ == Map::<Seq<char>, AttrValue>::empty(),
            r.groups@ == Seq::<String>::empty(),
            r.group_hierarchy@ == Seq::<Group>::empty(),
    {
        PrincipalIdentity {
            uid: uid.to_owned(),
            attributes: NameMap::new(),
            groups: Vec::new(),
            group_hierarchy: Vec::new(),
        }
    }

    /// Set a string-valued attribute (e.g. `role`, `region`).
    pub fn with_attribute(self, key: &str, value: &str) -> (r: Self)
        ensures
            r.uid == self.uid,
            exists|v: AttrValue|
                v@ == AttrModel::Text(value@) && r.attributes@ == #[trigger] self.attributes@.insert(
                    key@,
                    v,
                ),
            r.groups == self.groups,
            r.group_hierarchy == self.group_hierarchy,
    {
        self.with_attribute_value(key, AttrValue::String(value.to_owned()))
    }

    /// Set an attribute of any [`AttrValue`] type.
    pub fn with_attribute_value(self, key: &str, value: AttrValue) -> (r: Self)
        ensures
            r.uid == self.uid,
            r.attributes@ == self.attributes@.insert(key@, value),
            r.groups == self.groups,
            r.group_hierarchy == self.group_hierarchy,
    {
        let mut r = self;
        r.attributes.insert(key.to_owned(), value);
        r
    }

    /// The transitive group hierarchy carried for membership resolution.
    pub fn group_hierarchy(&self) -> (r: &[Group])
        ensures
            r@ == self.group_hierarchy@,
    {
        self.group_hierarchy.as_slice()
    }

    /// Apply a [`PrincipalEnrichment`] resolved from an [`IdentityProvider`].
    ///
    /// Its attributes override those of the same key: the provider is
    /// authoritative over what a client asserts. Its groups and its hierarchy
    /// take the place of the principal's.
    pub fn enriched(self, enrichment: PrincipalEnrichment) -> (r: Self)
        ensures
            r.uid == self.uid,
            r.attributes@ == self.attributes@.union_prefer_right(enrichment.attributes@),
            r.groups == enrichment.groups,
            r.group_hierarchy == enrichment.group_hierarchy,
    {
        let mut attributes = self.attributes;
        attributes.extend(enrichment.attributes);
        PrincipalIdentity {
            uid: self.uid,
            attributes,
            groups: enrichment.groups,
            group_hierarchy: enrichment.group_hierarchy,
        }
    }
}

/// The facts an [`IdentityProvider`] resolves for a principal.
#[derive(Debug, Clone)]
pub struct PrincipalEnrichment {
    /// Attributes that override client-asserted ones of the same key.
    pub attributes: NameMap<AttrValue>,
    /// The principal's direct group memberships, as uid strings.
    pub groups: Vec<String>,
    /// The transitive group hierarchy: groups and their ancestors.
    pub group_hierarchy: Vec<Group>,
}

impl Default for PrincipalEnrichment {
    fn default() -> (r: Self)
        ensures
            r.attributes@ == Map::<Seq<char>, AttrValue>::empty(),
            r.groups@ == Seq::<String>::empty(),
            r.group_hierarchy@ == Seq::<Group>::empty(),
    {
        PrincipalEnrichment {
            attributes: NameMap::new(),
            groups: Vec::new(),
            group_hierarchy: Vec::new(),
        }
    }
}

/// Transport-free claims the host passes to an [`IdentityProvider`].
#[derive(Debug, Clone)]
pub struct PrincipalClaims {
    /// Raw claim key/values, e.g. from a validated bearer token.
    pub claims: NameMap<String>,
    /// Agent identity claims, when the caller is an agent.
    pub agent: Option<AgentClaims>,
}

impl Default for PrincipalClaims {
    fn default() -> (r: Self)
        ensures
            r.claims@ == Map::<Seq<char>, String>::empty(),
            r.agent is None,
    {
        PrincipalClaims { claims: NameMap::new(), agent: None }
    }
}

/// Agent-identity claims.
#[derive(Debug, Clone, Default)]
pub struct AgentClaims {
    pub agent_type: Option<String>,
    pub agent_model: Option<String>,
    pub delegator: Option<String>,
}

/// An error resolving identity facts.
#[derive(Debug)]
pub enum IdentityError {
    /// The provider failed; the text says how.
    Provider(String),
}

impl IdentityError {
    /// The error's text.
    pub open spec fn text(&self) -> Seq<char> {
        match self {
            IdentityError::Provider(reason) => "identity provider error: "@ + reason@,
        }
    }

    /// The error's text.
    pub fn message(&self) -> (r: String)
        ensures
            r@ == self.text(),
    {
        match self {
            IdentityError::Provider(reason) => {
                let mut text = "identity provider error: ".to_owned();
                text.append(reason.as_str());
                text
            },
        }
    }
}

/// Resolves the identity facts of an **authenticated** principal uid: attributes
/// and group membership.
///
/// An unknown uid with an empty enrichment is a success. An error fails the
/// session, unless the host runs a posture that enforces nothing.
pub trait IdentityProvider {
    /// Whether `r` may be what [`Self::enrich`] returns. Anything, unless the
    /// provider says otherwise.
    open spec fn may_enrich(
        &self,
        uid: Seq<char>,
        claims: PrincipalClaims,
        r: Result<PrincipalEnrichment, IdentityError>,
    ) -> bool {
        true
    }

    /// The facts for `uid`, given the validated `claims`.
    fn enrich(&self, uid: &str, claims: &PrincipalClaims) -> (r: Result<
        PrincipalEnrichment,
        IdentityError,
    >)
        ensures
            self.may_enrich(uid@, *claims, r),
    ;
}

} // verus!
