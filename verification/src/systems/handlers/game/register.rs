//! Registration of the handlers of what happens in the game with the
//! scheduler.

use crate::dispatch::{Builder, DeclView, SystemDecl};
use crate::systems::handlers::game::on_join::send_level::SendPlayerLevel;
use crate::systems::handlers::game::on_join::send_login::SendLogin;
use crate::systems::handlers::game::on_join::send_score::SendScoreUpdate;
use crate::systems::handlers::game::on_spectate_event::send_kill_packet::SendKillPacket;
use vstd::prelude::*;

verus! {

/// The declaration of a handler that goes in by its name alone: it waits
/// for nothing and declares no access.
pub open spec fn named(name: Seq<char>) -> DeclView {
    DeclView { name, dependencies: Seq::empty(), reads: Seq::empty(), writes: Seq::empty() }
}

/// The handlers of the game, in the order in which they are registered:
/// the cleanup after a kill, what follows a player going to watch, what
/// follows a kill, and what follows a join.
pub open spec fn handlers() -> Seq<DeclView> {
    seq![
        named("systems::handlers::game::PlayerKilledCleanup"@),
        named("systems::handlers::game::on_spectate_event::SetSpectateFlag"@),
        SendKillPacket::declared(),
        named("systems::handlers::game::on_spectate_event::SendSpectatePacket"@),
        named("systems::handlers::game::on_spectate_event::SendTimerEvent"@),
        named("systems::handlers::game::on_spectate_event::SetSpectateTarget"@),
        named("systems::handlers::game::on_player_killed::SetRespawnTimer"@),
        named("systems::handlers::game::on_player_killed::DisplayMessage"@),
        named("systems::handlers::game::on_player_killed::UpdateScore"@),
        named("systems::handlers::game::on_join::InitKillCounters"@),
        named("systems::handlers::game::on_join::InitJoinTime"@),
        named("systems::handlers::game::on_join::InitEarnings"@),
        named("systems::handlers::game::on_join::InitTraits"@),
        named("systems::handlers::game::on_join::InitTransform"@),
        named("systems::handlers::game::on_join::SendPlayerNew"@),
        SendLogin::declared(),
        SendPlayerLevel::declared(),
        SendScoreUpdate::declared(),
    ]
}

/// Registers the eighteen handlers of the game after what `builder` holds,
/// in the order of [`handlers`].
pub fn register(builder: Builder) -> (r: Builder)
    ensures
        r.decls() == builder.decls() + handlers(),
{
    let r = builder.with(SystemDecl::new("systems::handlers::game::PlayerKilledCleanup")).with(
        SystemDecl::new("systems::handlers::game::on_spectate_event::SetSpectateFlag"),
    ).with(SendKillPacket::decl()).with(
        SystemDecl::new("systems::handlers::game::on_spectate_event::SendSpectatePacket"),
    ).with(SystemDecl::new("systems::handlers::game::on_spectate_event::SendTimerEvent")).with(
        SystemDecl::new("systems::handlers::game::on_spectate_event::SetSpectateTarget"),
    ).with(SystemDecl::new("systems::handlers::game::on_player_killed::SetRespawnTimer")).with(
        SystemDecl::new("systems::handlers::game::on_player_killed::DisplayMessage"),
    ).with(SystemDecl::new("systems::handlers::game::on_player_killed::UpdateScore")).with(
        SystemDecl::new("systems::handlers::game::on_join::InitKillCounters"),
    ).with(SystemDecl::new("systems::handlers::game::on_join::InitJoinTime")).with(
        SystemDecl::new("systems::handlers::game::on_join::InitEarnings"),
    ).with(SystemDecl::new("systems::handlers::game::on_join::InitTraits")).with(
        SystemDecl::new("systems::handlers::game::on_join::InitTransform"),
    ).with(SystemDecl::new("systems::handlers::game::on_join::SendPlayerNew")).with(
        SendLogin::decl(),
    ).with(SendPlayerLevel::decl()).with(SendScoreUpdate::decl());
    assert(r.decls() =~= builder.decls() + handlers());
    r
}

} // verus!
