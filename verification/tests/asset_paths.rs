use yaobow_shared::asset_paths::{
    actor_file_path, alpha_map_path, camera_data_path, evf_path, first_existing, gob_path,
    main_script_path, map_block_path, map_blocks, model_path, music_path, npc_info_path, object_model_path,
    scene_data_model_path, script_module_path, sound_path, swd5_atp_path, swd5_movie_path,
    swd5_music_path, swd5_sound_path, video_path, water_candidate_paths, world_model_path,
    Swd5Game,
};

#[test]
fn pal4_block_paths() {
    assert_eq!(script_module_path("m01"), "/gamedata/script/m01.csb");
    assert_eq!(evf_path("m01", "1"), "/gamedata/scenedata/m01/1/1.evf");
    assert_eq!(gob_path("m01", "1"), "/gamedata/scenedata/m01/1/GameObjs.gob");
    assert_eq!(world_model_path("m01", "1", ".bsp"), "/gamedata/PALWorld/m01/1/1.bsp");
    assert_eq!(world_model_path("m01", "1", "_clipNA.dff"), "/gamedata/PALWorld/m01/1/1_clipNA.dff");
    assert_eq!(scene_data_model_path("m01", "1", "_floor.dff"), "/gamedata/scenedata/m01/1/1_floor.dff");
    assert_eq!(npc_info_path("M02", "3"), "/gamedata/scenedata/M02/3/npcInfo.npc");
    assert_eq!(camera_data_path("c01", "m01", "1"), "/gamedata/scenedata/m01/1/c01.cam");
}

#[test]
fn pal4_actor_and_object_paths() {
    assert_eq!(actor_file_path("101", "101", "dff"), "/gamedata/PALActor/101/101.dff");
    assert_eq!(actor_file_path("101", "C03", "anm"), "/gamedata/PALActor/101/C03.anm");
    assert_eq!(
        object_model_path("gamedata\\PALObject\\OM01\\", "door"),
        "/gamedata/PALObject/OM01/door.dff"
    );
    assert_eq!(music_path("PI01"), "/gamedata/Music/PI01.smp");
    assert_eq!(sound_path("wa01", "wav"), "/gamedata/PALSound/wa01.wav");
}

#[test]
fn videos_live_in_their_folder() {
    assert_eq!(video_path("PAL4A.BIK"), "/gamedata/VideoA/PAL4A.BIK");
    assert_eq!(video_path("1a.bik"), "/gamedata/VideoA/1a.bik");
    assert_eq!(video_path("end2.bik"), "/gamedata/VideoA/end2.bik");
    assert_eq!(video_path("3b.bik"), "/gamedata/videob/3b.bik");
}

#[test]
fn water_candidates_in_likelihood_order() {
    let c = water_candidate_paths("Q01", "Q01Y", "dff");
    assert_eq!(
        c,
        vec![
            "/gamedata/PALWorld/Q01/Q01Y/Q01Y_water.dff".to_string(),
            "/gamedata/Q01/q01/Q01Y/Q01Y_water.dff".to_string(),
            "/gamedata/Q01/q01y/Q01Y/Q01Y_water.dff".to_string(),
            "/gamedata/scenedata/Q01/Q01Y/Q01Y_water.dff".to_string(),
            "/gamedata/ui2/ui/uiWorld/q01y/Q01Y_water.dff".to_string(),
        ]
    );
    assert_eq!(first_existing(&c, &vec![false, false, true, true, false]), Some(2));
    assert_eq!(first_existing(&c, &vec![false; 5]), None);
}

#[test]
fn pal5_paths() {
    assert_eq!(map_block_path("Q01", 0, 12, "mp"), "/Map/Q01/Q01_0_12.mp");
    assert_eq!(alpha_map_path("Q01", 3, 4), "/Map/Q01/alphamap_3_4.alp");
    assert_eq!(model_path("role\\r01\\a.dff"), "/Model/role/r01/a.dff");
}

#[test]
fn swd5_paths() {
    assert_eq!(swd5_sound_path(12), "/Sound/SoundDB/12.mp3");
    assert_eq!(swd5_sound_path(-3), "/Sound/SoundDB/-3.mp3");
    assert_eq!(swd5_music_path(7), "/Music/Music/7.mp3");
    assert_eq!(swd5_movie_path(3), "/movie/movie03.bik");
    assert_eq!(swd5_movie_path(123), "/movie/movie123.bik");
    assert_eq!(swd5_atp_path(5), "/ACT/00000005.atp");
    assert_eq!(main_script_path(Swd5Game::Swd5), "/Script/0000.C01");
    assert_eq!(main_script_path(Swd5Game::SwdHc), "/Text/main/0000.C01");
    assert_eq!(main_script_path(Swd5Game::SwdCf), "/Text/Off_Line/main/0000.C01");
}

fn grid(rows: &[usize]) -> Vec<Vec<bool>> {
    rows.iter()
        .map(|&n| (0..16).map(|c| c < n).collect())
        .collect()
}

#[test]
fn map_blocks_scan_rows_up_to_their_first_gap() {
    assert_eq!(
        map_blocks(&grid(&[3, 1, 2])),
        vec![(0, 0), (0, 1), (0, 2), (1, 0), (2, 0), (2, 1)]
    );
    // A row whose first block is missing ends the scan.
    assert_eq!(map_blocks(&grid(&[2, 0, 5])), vec![(0, 0), (0, 1)]);
    // A gap inside a row ends that row only.
    let mut g = grid(&[4, 2]);
    g[0][1] = false;
    assert_eq!(map_blocks(&g), vec![(0, 0), (1, 0), (1, 1)]);
}

#[test]
fn map_blocks_fall_back_to_the_first_block() {
    assert_eq!(map_blocks(&grid(&[0, 3])), vec![(0, 0)]);
    assert_eq!(map_blocks(&Vec::new()), vec![(0, 0)]);
}

#[test]
fn map_blocks_stop_at_the_grid_edge() {
    let full = grid(&[16; 17]);
    let blocks = map_blocks(&full);
    assert_eq!(blocks.len(), 256);
    assert_eq!(blocks[255], (15, 15));
}
