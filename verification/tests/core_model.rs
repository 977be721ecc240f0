//! Voxel packing, addressing, terrain generation, inventory and the dump
//! format on concrete values.

use voxelcore::addressing::{local_to_world, shift_negative_block_coord, world_pos_to_chunk_axis, world_to_chunk, ChunkCoord};
use voxelcore::chunk::{Chunk, CHUNK_VOLUME};
use voxelcore::codec::{read_from_bytes, write_to_bytes, RECORD_LEN};
use voxelcore::inventory::{Count, Inventory, Item, ItemType, BACKPACK_SIZE, HOTBAR_SIZE};
use voxelcore::terrain::{
    anticipated_block_from_sample, chunk_voxels_from_samples, init_player_position,
    surface_height_from_sample, COLUMN_COUNT,
};
use noise::NoiseFn;
use voxelcore::voxel::{Block, BlockType};

fn flat_samples(m: i64) -> Vec<i64> {
    vec![m; COLUMN_COUNT]
}

#[test]
fn air_iff_low_bits_clear() {
    assert!(Block::is_air(0));
    for id in 1u64..0x10000 {
        if id % 997 == 1 || id < 20 {
            assert!(!Block::is_air(id));
        }
    }
    // Metadata-only bits leave the voxel air.
    assert!(Block::is_air(0xDEAD_0000_0000u64 << 16 >> 16 << 16));
    assert!(Block::is_air(0x0001_0000u64));
    assert_eq!(Block::get_block_id(0xABCD_0000_0000_1234u64), 0x1234);
}

#[test]
fn voxel_roundtrip_preserves_metadata_and_solidity() {
    let mut chunk = Chunk::filled(ChunkCoord { x: 0, z: 0 }, 0);
    let packed = 0xFFEE_DDCC_BBAA_0007u64;
    chunk.set_block_at(3, 5, 100, packed);
    let back = chunk.block_at(3, 5, 100);
    assert_eq!(back, packed);
    assert!(!Block::is_air(back));
    assert_eq!(Block::get_block_id(back), 0x0007);
    // Every other voxel is untouched.
    assert_eq!(chunk.block_at(3, 5, 101), 0);
    assert_eq!(chunk.block_at(4, 5, 100), 0);
}

#[test]
fn block_catalogue() {
    let air = Block::from_id(0);
    assert!(matches!(air.name(), BlockType::AIR));
    let dirt = Block::from_id(1);
    assert!(matches!(dirt.name(), BlockType::DIRT));
    assert_eq!(dirt.zoffset_texure(), 0);
}

#[test]
fn addressing_inverse_positive_and_negative() {
    for &w in &[0i64, 1, 15, 16, 17, 31, 32, -1, -15, -16, -17, -31, -32, -33, 1000, -1000] {
        let (cc, lx, _lz) = world_to_chunk(w, w);
        let (wx, wz) = local_to_world(cc, lx, lx);
        assert_eq!(wx, w);
        assert_eq!(wz, w);
        assert!(lx < 16);
    }
    // Negative coordinates floor, they do not truncate.
    let (cc, lx, lz) = world_to_chunk(-1, -17);
    assert_eq!(cc.x, -1);
    assert_eq!(cc.z, -2);
    assert_eq!(lx, 15);
    assert_eq!(lz, 15);
}

#[test]
fn scaled_positions_floor_twice() {
    // A fixed-point position divided by the blocksize floors to its block,
    // then splits into chunk and local index.
    // Blocksize one block (1024 fixed-point units): position -0.5 lands in
    // block -1, chunk -1, local 15.
    assert_eq!(world_pos_to_chunk_axis(-512, 1024), (-1, 15));
    // Blocksize two blocks: position 33.0 lands in block 16, chunk 1.
    assert_eq!(world_pos_to_chunk_axis(33 * 1024, 2048), (1, 0));
    assert_eq!(world_pos_to_chunk_axis(512, 1024), (0, 0));
}

#[test]
fn shift_negative_block_coord_folds_remainders() {
    assert_eq!(shift_negative_block_coord(-1), 15);
    assert_eq!(shift_negative_block_coord(-15), 1);
    assert_eq!(shift_negative_block_coord(-16), 0);
    assert_eq!(shift_negative_block_coord(0), 0);
    assert_eq!(shift_negative_block_coord(7), 7);
    assert_eq!(shift_negative_block_coord(15), 15);
}

#[test]
fn surface_height_formula() {
    assert_eq!(surface_height_from_sample(0), 100);
    assert_eq!(surface_height_from_sample(1000), 120);
    assert_eq!(surface_height_from_sample(-1000), 80);
    assert_eq!(surface_height_from_sample(500), 110);
    assert_eq!(surface_height_from_sample(-500), 90);
}

#[test]
fn zero_noise_surface_is_one_hundred() {
    // A noise stub returning 0 for all inputs puts the surface at 100:
    // local (0, 0, 99) is solid, local (0, 0, 150) is air.
    let samples = flat_samples(0);
    let chunk = chunk_voxels_from_samples(ChunkCoord { x: 0, z: 0 }, &samples);
    assert!(!Block::is_air(chunk.block_at(0, 0, 99)));
    assert!(Block::is_air(chunk.block_at(0, 0, 150)));
    assert!(Block::is_air(chunk.block_at(0, 0, 100)));
    assert!(!Block::is_air(chunk.block_at(15, 15, 0)));
    assert_eq!(anticipated_block_from_sample(0, 99), 1);
    assert_eq!(anticipated_block_from_sample(0, 150), 0);
}

fn perlin_samples(seed: u32, coord: ChunkCoord) -> Vec<i64> {
    let perlin = noise::Perlin::new(seed);
    let mut samples = Vec::new();
    for x in 0..16i64 {
        for z in 0..16i64 {
            let wx = coord.x as i64 * 16 + x;
            let wz = coord.z as i64 * 16 + z;
            let v = perlin.get([wx as f64 / 100.0, wz as f64 / 100.0]);
            samples.push((v * 1000.0) as i64);
        }
    }
    samples
}

#[test]
fn generation_is_deterministic() {
    // Fixed seed, origin and samples: repeated builds agree voxel for
    // voxel, with the real coherent-noise source and with a stub alike.
    let coord = ChunkCoord { x: 3, z: -2 };
    let s1 = perlin_samples(2, coord);
    let s2 = perlin_samples(2, coord);
    assert_eq!(s1, s2);
    let c1 = chunk_voxels_from_samples(coord, &s1);
    let c2 = chunk_voxels_from_samples(coord, &s2);
    assert_eq!(c1.blocks(), c2.blocks());

    let t1 = chunk_voxels_from_samples(coord, &flat_samples(250));
    let t2 = chunk_voxels_from_samples(coord, &flat_samples(250));
    assert_eq!(t1.blocks(), t2.blocks());
}

#[test]
fn spawn_search_finds_air_gap() {
    // Surface at 100: height 50 is solid, so the search walks upward and
    // stops at the surface.
    let chunk = chunk_voxels_from_samples(ChunkCoord { x: 0, z: 0 }, &flat_samples(0));
    assert_eq!(init_player_position(&chunk), Some(100));
    // An all-air chunk is air at 50 already: the downward search accepts
    // 50 itself.
    let empty = Chunk::filled(ChunkCoord { x: 0, z: 0 }, 0);
    assert_eq!(init_player_position(&empty), Some(50));
}

#[test]
fn inventory_fills_hotbar_then_backpack() {
    let mut inv = Inventory::new();
    let item = Item::from_block(7, Count::Infinite);
    for _ in 0..HOTBAR_SIZE {
        assert!(inv.pick_item(item));
    }
    assert!(matches!(inv.get_item_from_hotbar(0), Some(i) if i.id() == 7));
    assert!(matches!(inv.get_item_from_hotbar(9), Some(i) if i.id() == 7));
    // The hotbar is full: the next picks land in the backpack.
    for _ in 0..BACKPACK_SIZE {
        assert!(inv.pick_item(item));
    }
    // Everything is full now.
    assert!(!inv.pick_item(item));
    assert!(matches!(item.type_, ItemType::BLOCK));
}

#[test]
fn dump_record_roundtrip() {
    let mut chunk = Chunk::filled(ChunkCoord { x: -2, z: 3 }, 0);
    chunk.set_block_at(1, 2, 3, 0x1122_3344_5566_7788);
    chunk.set_block_at(15, 15, 215, u64::MAX);
    let bytes = write_to_bytes(&chunk);
    assert_eq!(bytes.len(), RECORD_LEN);
    // Big-endian signed coordinates lead the record.
    assert_eq!(&bytes[0..8], &(-2i64).to_be_bytes());
    assert_eq!(&bytes[8..16], &3i64.to_be_bytes());
    let (x, z, voxels) = read_from_bytes(&bytes, 0).unwrap();
    assert_eq!(x, -2);
    assert_eq!(z, 3);
    assert_eq!(voxels.len(), CHUNK_VOLUME);
    assert_eq!(&voxels, chunk.blocks());
}

#[test]
fn dump_record_too_short_is_rejected() {
    let bytes = vec![0u8; RECORD_LEN - 1];
    assert!(read_from_bytes(&bytes, 0).is_none());
    let bytes2 = vec![0u8; RECORD_LEN];
    assert!(read_from_bytes(&bytes2, 1).is_none());
    assert!(read_from_bytes(&bytes2, 0).is_some());
}
