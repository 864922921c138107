//! Profiles: who the assistant is, the rules it keeps, and what it remembers.

use crate::json::{object_view, Json};
use serde_json::Value;
use vstd::prelude::*;

verus! {

#[derive(Debug)]
pub struct Profile {
    pub name: String,
    pub identity: String,
    pub rules: String,
    pub custom: String,
    pub memories: Vec<String>,
    pub meta: serde_json::Map<String, Value>,
}

/// What a `Profile` holds.
pub struct ProfileView {
    pub name: Seq<char>,
    pub identity: Seq<char>,
    pub rules: Seq<char>,
    pub custom: Seq<char>,
    pub memories: Seq<Seq<char>>,
    pub meta: Map<Seq<char>, Json>,
}

impl DeepView for Profile {
    type V = ProfileView;

    open spec fn deep_view(&self) -> ProfileView {
        ProfileView {
            name: self.name@,
            identity: self.identity@,
            rules: self.rules@,
            custom: self.custom@,
            memories: self.memories.deep_view(),
            meta: object_view(self.meta),
        }
    }
}

impl Clone for Profile {
    fn clone(&self) -> (r: Self)
        ensures
            r.deep_view() == self.deep_view(),
    {
        let r = Profile {
            name: self.name.clone(),
            identity: self.identity.clone(),
            rules: self.rules.clone(),
            custom: self.custom.clone(),
            memories: self.memories.clone(),
            meta: self.meta.clone(),
        };
        assert(r.memories.deep_view() =~= self.memories.deep_view());
        r
    }
}

impl Profile {
    /// A profile with the given parts.
    pub fn new(
        name: &str,
        identity: &str,
        rules: &str,
        custom: &str,
        memories: Vec<String>,
        meta: serde_json::Map<String, Value>,
    ) -> (r: Self)
        ensures
            r.deep_view() == (ProfileView {
                name: name@,
                identity: identity@,
                rules: rules@,
                custom: custom@,
                memories: memories.deep_view(),
                meta: object_view(meta),
            }),
    {
        Profile {
            name: name.to_owned(),
            identity: identity.to_owned(),
            rules: rules.to_owned(),
            custom: custom.to_owned(),
            memories,
            meta,
        }
    }
}

} // verus!
