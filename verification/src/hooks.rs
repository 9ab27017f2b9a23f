//! The hook objects the injected DLL installs, and the decisions their
//! detours take on what they read from the game.
//!
//! Installing a detour and reading game memory happen outside this crate;
//! what stands here is each hook's state and the pure part of its handler.

use vstd::prelude::*;

verus! {

/// Why a hook could not be installed.
#[derive(Debug, Clone, Copy, PartialEq, Eq, Structural)]
pub enum HookSetupError {
    /// The function's signature was not found in the game executable.
    SignatureNotFound,
}

/// Quest-type value that selects the EndlessMode (Conflux) reception flow.
pub const QUEST_TYPE_ENDLESS_MODE: u32 = 8;

/// The quest type packed into bits 20..24 of the dispatcher's argument.
pub open spec fn spec_quest_type(raw: u32) -> u32 {
    ((raw as int / 0x10_0000) % 16) as u32
}

/// The quest type the reception-flow dispatcher selects the flow by.
pub fn quest_type(raw: u32) -> (t: u32)
    ensures
        t == spec_quest_type(raw),
        t < 16,
{
    let t = (raw >> 0x14u32) & 0xfu32;
    assert(t == (raw / 0x10_0000) % 16) by (bit_vector)
        requires
            t == (raw >> 0x14u32) & 0xfu32,
    ;
    t
}

/// Whether a reception builds an EndlessMode flow, i.e. a Conflux run being
/// set up.
pub fn is_endless_mode(raw: u32) -> (r: bool)
    ensures
        r == (spec_quest_type(raw) == QUEST_TYPE_ENDLESS_MODE),
{
    quest_type(raw) == QUEST_TYPE_ENDLESS_MODE
}

/// Logs each quest-reception-flow build, flagging EndlessMode receptions.
#[derive(Debug, Clone)]
pub struct OnReceptionFlowDispatchHook {}

impl OnReceptionFlowDispatchHook {
    pub fn new() -> (r: Self) {
        OnReceptionFlowDispatchHook {  }
    }

    /// Installs nothing: the diagnostic detour is compiled out of this
    /// build, so setup always succeeds.
    pub fn setup<P>(&self, _process: &P) -> (r: Result<(), HookSetupError>)
        ensures
            r is Ok,
    {
        Ok(())
    }
}

/// Logs each installation of the endless-mode buff on a player actor.
#[derive(Debug, Clone)]
pub struct OnEndlessBuffInstallHook {}

impl OnEndlessBuffInstallHook {
    pub fn new() -> (r: Self) {
        OnEndlessBuffInstallHook {  }
    }

    /// Installs nothing: the diagnostic detour is compiled out of this
    /// build, so setup always succeeds.
    pub fn setup<P>(&self, _process: &P) -> (r: Result<(), HookSetupError>)
        ensures
            r is Ok,
    {
        Ok(())
    }
}

/// Logs the destruction of the endless-mode quest manager, the run-end
/// signal.
#[derive(Debug, Clone)]
pub struct OnEndlessMgrDtorHook {}

impl OnEndlessMgrDtorHook {
    pub fn new() -> (r: Self) {
        OnEndlessMgrDtorHook {  }
    }

    /// Installs nothing: the diagnostic detour is compiled out of this
    /// build, so setup always succeeds.
    pub fn setup<P>(&self, _process: &P) -> (r: Result<(), HookSetupError>)
        ensures
            r is Ok,
    {
        Ok(())
    }
}

/// Reports each loaded player's equipment and stats to the app.
#[derive(Debug, Clone)]
pub struct OnLoadPlayerHook<Tx> {
    /// Where the hook sends the events it builds.
    pub tx: Tx,
}

impl<Tx> OnLoadPlayerHook<Tx> {
    pub fn new(tx: Tx) -> (r: Self)
        ensures
            r.tx == tx,
    {
        OnLoadPlayerHook { tx }
    }
}

/// Caches player identities whenever the game refreshes them.
#[derive(Debug, Clone)]
pub struct OnLoadPlayerIdentityHook<Tx> {
    /// Kept for symmetry with the other hooks; identities are published
    /// through the damage path, not from here.
    pub tx: Tx,
}

impl<Tx> OnLoadPlayerIdentityHook<Tx> {
    pub fn new(tx: Tx) -> (r: Self)
        ensures
            r.tx == tx,
    {
        OnLoadPlayerIdentityHook { tx }
    }
}

/// Whether every equipment offset resolved. An offset left at 0 by a broken
/// signature would point the player's structures at the object's own start
/// (and its vtable read as a sigil list), so the load event is skipped.
pub fn offsets_resolved(player_data: usize, weapon: usize, overmastery: usize, sigil: usize) -> (r: bool)
    ensures
        r == (player_data != 0 && weapon != 0 && overmastery != 0 && sigil != 0),
{
    player_data != 0 && weapon != 0 && overmastery != 0 && sigil != 0
}

/// Whether a loaded player's sigil list describes an unused party slot: the
/// slot index's low byte is 0xFF and the player is not online. Such loads
/// send no event.
pub fn is_unused_slot(party_index: u32, is_online: u32) -> (r: bool)
    ensures
        r == (party_index % 256 == 255 && is_online == 0),
{
    let low = party_index as u8;
    assert(low == party_index % 256) by (bit_vector)
        requires
            low == party_index as u8,
    ;
    low == 0xFFu8 && is_online == 0
}

} // verus!
