use yaobow_shared::pal5_ground::{
    active_layer_count, base_layer_id, blade_cells, cell_key, env_flag, env_u32,
    frac_numerator, grass_leaf_grid, grass_texture_id, hash, overlay_cells,
    overlay_texel_weights, patch_layer_ids, vertex_layer_slot, weight_texel_vertex, GrassCell,
    FALLBACK_GRASS_TEX,
};

#[test]
fn grass_texture_prefers_the_first_set_id() {
    assert_eq!(grass_texture_id(11, 12), 11);
    assert_eq!(grass_texture_id(-1, 12), 12);
    assert_eq!(grass_texture_id(-1, -1), FALLBACK_GRASS_TEX);
}

#[test]
fn hash_has_fixed_values() {
    assert_eq!(hash(0, 0, 0), 0);
    assert_eq!(hash(1, 2, 3), 2863849624);
    assert_eq!(hash(4294967295, 1, 0), 602226155);
    assert_eq!(cell_key(1, 2, 3, 4), 1495668091);
    assert_eq!(frac_numerator(0xabcd_ef12), 0x00cd_ef12);
}

#[test]
fn leaf_grid_needs_density_tiles_and_a_full_grid() {
    assert_eq!(grass_leaf_grid(64, 32, 8, 8), Some((8, 8)));
    assert_eq!(grass_leaf_grid(0, 32, 8, 8), None);
    assert_eq!(grass_leaf_grid(64, 0, 8, 8), None);
    assert_eq!(grass_leaf_grid(63, 32, 8, 8), None);
    assert_eq!(grass_leaf_grid(4096, 32, 100, 0), Some((64, 1)));
}

#[test]
fn min_density_threshold_drops_sparse_cells() {
    let mut d = vec![1u8; 64];
    for v in d.iter_mut().take(32) {
        *v = 7;
    }
    assert_eq!(overlay_cells(&d, 8, 8, 1).len(), 64);
    let some = overlay_cells(&d, 8, 8, 2);
    assert_eq!(some.len(), 32, "only the dense cells");
    assert_eq!(some[0], GrassCell { row: 0, col: 0, density: 7 });
    assert_eq!(some[31], GrassCell { row: 3, col: 7, density: 7 });
}

#[test]
fn blades_grow_only_on_low_density_grass_cells() {
    let mut d = vec![7u8; 64];
    for v in d.iter_mut().take(32) {
        *v = 1;
    }
    d[40] = 0;
    let cells = blade_cells(&d, 8, 8, 2);
    assert_eq!(cells.len(), 32);
    assert!(cells.iter().all(|c| c.density == 1 && c.row < 4));
    assert!(blade_cells(&vec![7u8; 64], 8, 8, 2).is_empty());
}

#[test]
fn env_switches_read_their_text() {
    assert!(env_flag(None, true));
    assert!(!env_flag(None, false));
    for off in ["0", "false", " off ", "no", "", "  "] {
        assert!(!env_flag(Some(off), true), "{off:?} is off");
    }
    for on in ["1", "yes", "true", "FALSE", "nope"] {
        assert!(env_flag(Some(on), false), "{on:?} is on");
    }
    assert_eq!(env_u32(Some("42"), 7), 42);
    assert_eq!(env_u32(Some("+5"), 7), 5);
    assert_eq!(env_u32(Some(" 42"), 7), 7);
    assert_eq!(env_u32(Some("4294967296"), 7), 7);
    assert_eq!(env_u32(Some("4294967295"), 7), u32::MAX);
    assert_eq!(env_u32(None, 9), 9);
}

#[test]
fn terrain_layers_and_weights() {
    assert_eq!(patch_layer_ids([-1, -1, -1, -1], [1, 2, 3, 4]), [1, 2, 3, 4]);
    assert_eq!(patch_layer_ids([-1, 5, -1, -1], [1, 2, 3, 4]), [-1, 5, -1, -1]);
    assert_eq!(overlay_texel_weights([10, 20, 30, 40], [0, 0, 0, 0]), [30, 20, 10, 40]);
    assert_eq!(overlay_texel_weights([10, 20, 30, 40], [0, -1, 0, -1]), [30, 0, 10, 0]);
    assert_eq!(vertex_layer_slot(2, [0, 0, 0, 0]), 2);
    assert_eq!(vertex_layer_slot(2, [0, 0, -1, 0]), 0);
    assert_eq!(vertex_layer_slot(7, [0, 0, 0, 0]), 0);
    assert_eq!(vertex_layer_slot(-1, [0, 0, 0, 0]), 0);
    assert_eq!(weight_texel_vertex(0, 0), 0);
    assert_eq!(weight_texel_vertex(63, 63), 16 * 17 + 16);
    assert_eq!(weight_texel_vertex(2, 1), 17);
    assert_eq!(active_layer_count([-1, -1, -1, -1]), 1);
    assert_eq!(active_layer_count([0, -1, 3, 9]), 3);
    assert_eq!(base_layer_id([-1, 4, 5, -1]), Some(4));
    assert_eq!(base_layer_id([-1, -1, -1, -1]), None);
}
