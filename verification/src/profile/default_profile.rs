//! The profile that is there without any file.

use super::model::{Profile, ProfileView};
use vstd::prelude::*;

verus! {

/// The profile that is there without any file.
pub open spec fn default_profile_view() -> ProfileView {
    ProfileView {
        name: "default"@,
        identity: "You are a helpful, thoughtful assistant.\n"@,
        rules:
            "Be honest. Do not make things up.\nBe concise unless the user asks for depth.\n"@,
        custom: ""@,
        memories: Seq::empty(),
        meta: Map::empty(),
    }
}

/// The profile that is there without any file.
pub fn built_in_default() -> (r: Profile)
    ensures
        r.deep_view() == default_profile_view(),
{
    let memories: Vec<String> = Vec::new();
    assert(memories.deep_view() =~= Seq::empty());
    Profile::new(
        "default",
        "You are a helpful, thoughtful assistant.\n",
        "Be honest. Do not make things up.\nBe concise unless the user asks for depth.\n",
        "",
        memories,
        serde_json::Map::new(),
    )
}

} // verus!
