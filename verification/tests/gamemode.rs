use battlebit_stats::Gamemode;

const ALL: [Gamemode; 13] = [
    Gamemode::Conquest,
    Gamemode::InfanteryConquest,
    Gamemode::Rush,
    Gamemode::Frontline,
    Gamemode::Domination,
    Gamemode::Elimination,
    Gamemode::TeamDeathmatch,
    Gamemode::CaptureTheFlag,
    Gamemode::VoxelFortify,
    Gamemode::VoxelTrench,
    Gamemode::FreeForAll,
    Gamemode::Gamemode19,
    Gamemode::Unknown,
];

#[test]
fn named_gamemodes_have_their_fixed_labels() {
    assert_eq!(Gamemode::InfanteryConquest.label(), "Infantry Conquest");
    assert_eq!(Gamemode::TeamDeathmatch.label(), "Team Deathmatch");
    assert_eq!(Gamemode::CaptureTheFlag.label(), "Capture The Flag");
    assert_eq!(Gamemode::VoxelFortify.label(), "Voxel Fortify");
    assert_eq!(Gamemode::VoxelTrench.label(), "Voxel Trench");
    assert_eq!(Gamemode::FreeForAll.label(), "Free For All");
    assert_eq!(Gamemode::Gamemode19.label(), "Gamemode 19");
}

#[test]
fn other_gamemodes_fall_back_to_their_own_name() {
    assert_eq!(Gamemode::Conquest.label(), "Conquest");
    assert_eq!(Gamemode::Rush.label(), "Rush");
    assert_eq!(Gamemode::Frontline.label(), "Frontline");
    assert_eq!(Gamemode::Domination.label(), "Domination");
    assert_eq!(Gamemode::Elimination.label(), "Elimination");
    assert_eq!(Gamemode::Unknown.label(), "Unknown");
}

#[test]
fn the_fallback_is_the_text_of_the_data_source() {
    assert_eq!(Gamemode::Conquest.label(), battlebit_api::Gamemode::Conquest.to_string());
    assert_eq!(Gamemode::Rush.label(), battlebit_api::Gamemode::Rush.to_string());
    assert_eq!(Gamemode::Frontline.label(), battlebit_api::Gamemode::Frontline.to_string());
    assert_eq!(Gamemode::Domination.label(), battlebit_api::Gamemode::Domination.to_string());
    assert_eq!(Gamemode::Elimination.label(), battlebit_api::Gamemode::Elimination.to_string());
    assert_eq!(Gamemode::Unknown.label(), battlebit_api::Gamemode::Unknown.to_string());
}

#[test]
fn every_gamemode_has_a_label_that_is_not_empty() {
    for mode in ALL {
        assert!(!mode.label().is_empty(), "{:?}", mode);
    }
}

#[test]
fn labels_tell_the_gamemodes_apart() {
    for (i, a) in ALL.iter().enumerate() {
        for b in ALL.iter().skip(i + 1) {
            assert_ne!(a.label(), b.label());
        }
    }
}
