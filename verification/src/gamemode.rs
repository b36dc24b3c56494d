//! Gamemodes and the labels under which they are shown.

use vstd::prelude::*;

verus! {

/// The gamemode a server is running.
///
/// The set is closed: a wire value that matches no known mode arrives as
/// [`Gamemode::Unknown`].
#[derive(Clone, Copy, Debug, PartialEq, Eq, Structural)]
pub enum Gamemode {
    Conquest,
    InfanteryConquest,
    Rush,
    Frontline,
    Domination,
    Elimination,
    TeamDeathmatch,
    CaptureTheFlag,
    VoxelFortify,
    VoxelTrench,
    FreeForAll,
    Gamemode19,
    Unknown,
}

impl Gamemode {
    /// The textual form a gamemode has by default: the name of its variant.
    pub open spec fn default_text(self) -> Seq<char> {
        match self {
            Gamemode::Conquest => "Conquest"@,
            Gamemode::InfanteryConquest => "InfanteryConquest"@,
            Gamemode::Rush => "Rush"@,
            Gamemode::Frontline => "Frontline"@,
            Gamemode::Domination => "Domination"@,
            Gamemode::Elimination => "Elimination"@,
            Gamemode::TeamDeathmatch => "TeamDeathmatch"@,
            Gamemode::CaptureTheFlag => "CaptureTheFlag"@,
            Gamemode::VoxelFortify => "VoxelFortify"@,
            Gamemode::VoxelTrench => "VoxelTrench"@,
            Gamemode::FreeForAll => "FreeForAll"@,
            Gamemode::Gamemode19 => "Gamemode19"@,
            Gamemode::Unknown => "Unknown"@,
        }
    }

    /// The label under which a gamemode is counted and shown.
    ///
    /// Seven modes carry a hand-written name; every other mode falls back to
    /// its default textual form.
    pub open spec fn label_text(self) -> Seq<char> {
        match self {
            Gamemode::InfanteryConquest => "Infantry Conquest"@,
            Gamemode::TeamDeathmatch => "Team Deathmatch"@,
            Gamemode::CaptureTheFlag => "Capture The Flag"@,
            Gamemode::VoxelFortify => "Voxel Fortify"@,
            Gamemode::VoxelTrench => "Voxel Trench"@,
            Gamemode::FreeForAll => "Free For All"@,
            Gamemode::Gamemode19 => "Gamemode 19"@,
            _ => self.default_text(),
        }
    }

    /// Computes the label of a gamemode.
    pub fn label(&self) -> (label: String)
        ensures
            label@ == self.label_text(),
    {
        match self {
            Gamemode::InfanteryConquest => "Infantry Conquest".to_owned(),
            Gamemode::TeamDeathmatch => "Team Deathmatch".to_owned(),
            Gamemode::CaptureTheFlag => "Capture The Flag".to_owned(),
            Gamemode::VoxelFortify => "Voxel Fortify".to_owned(),
            Gamemode::VoxelTrench => "Voxel Trench".to_owned(),
            Gamemode::FreeForAll => "Free For All".to_owned(),
            Gamemode::Gamemode19 => "Gamemode 19".to_owned(),
            _ => default_label(*self),
        }
    }

    /// Every gamemode has a label, and no label is empty.
    pub proof fn lemma_label_nonempty(self)
        ensures
            self.label_text().len() > 0,
    {
        reveal_strlit("Conquest");
        reveal_strlit("Rush");
        reveal_strlit("Frontline");
        reveal_strlit("Domination");
        reveal_strlit("Elimination");
        reveal_strlit("Unknown");
        reveal_strlit("Infantry Conquest");
        reveal_strlit("Team Deathmatch");
        reveal_strlit("Capture The Flag");
        reveal_strlit("Voxel Fortify");
        reveal_strlit("Voxel Trench");
        reveal_strlit("Free For All");
        reveal_strlit("Gamemode 19");
    }
}

/// Renders a gamemode by `to_string` of `battlebit_api::Gamemode`, that is by
/// its `Display` impl.
///
/// Trusted, not proved: the impl is derived by `derive_more`, which for a
/// variant without fields writes the name of the variant and nothing else.
/// Each gamemode is rendered as the variant of the same name.
#[verifier::external_body]
fn default_label(mode: Gamemode) -> (text: String)
    ensures
        text@ == mode.default_text(),
{
    match mode {
        Gamemode::Conquest => battlebit_api::Gamemode::Conquest,
        Gamemode::InfanteryConquest => battlebit_api::Gamemode::InfanteryConquest,
        Gamemode::Rush => battlebit_api::Gamemode::Rush,
        Gamemode::Frontline => battlebit_api::Gamemode::Frontline,
        Gamemode::Domination => battlebit_api::Gamemode::Domination,
        Gamemode::Elimination => battlebit_api::Gamemode::Elimination,
        Gamemode::TeamDeathmatch => battlebit_api::Gamemode::TeamDeathmatch,
        Gamemode::CaptureTheFlag => battlebit_api::Gamemode::CaptureTheFlag,
        Gamemode::VoxelFortify => battlebit_api::Gamemode::VoxelFortify,
        Gamemode::VoxelTrench => battlebit_api::Gamemode::VoxelTrench,
        Gamemode::FreeForAll => battlebit_api::Gamemode::FreeForAll,
        Gamemode::Gamemode19 => battlebit_api::Gamemode::Gamemode19,
        Gamemode::Unknown => battlebit_api::Gamemode::Unknown,
    }.to_string()
}

} // verus!
