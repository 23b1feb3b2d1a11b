use voxel_heat::errors::HeatError;
use voxel_heat::volume::{Size, Volume};

#[test]
fn grid_set_then_get_returns_the_value() {
    let size = Size { x: 4, y: 3, z: 2 };
    let mut v: Volume<i128> = Volume::new(size, 0);
    v.set(1, 2, 1, 42);
    assert_eq!(v.get(1, 2, 1), 42);
    for z in 0..2 {
        for y in 0..3 {
            for x in 0..4 {
                if (x, y, z) != (1, 2, 1) {
                    assert_eq!(v.get(x, y, z), 0);
                }
            }
        }
    }
}

#[test]
fn grid_linear_index_formula() {
    let size = Size { x: 4, y: 3, z: 2 };
    let v: Volume<u32> = Volume::new(size, 0);
    assert_eq!(v.index(0, 0, 0), 0);
    assert_eq!(v.index(1, 2, 1), (1 * 3 + 2) * 4 + 1);
    assert_eq!(v.index(3, 2, 1), 23);
}

#[test]
fn grid_index_is_a_bijection() {
    let size = Size { x: 5, y: 4, z: 3 };
    let v: Volume<u8> = Volume::new(size, 0);
    let mut seen = vec![false; 60];
    for z in 0..3 {
        for y in 0..4 {
            for x in 0..5 {
                let i = v.index(x, y, z);
                assert!(i < 60);
                assert!(!seen[i]);
                seen[i] = true;
            }
        }
    }
    assert!(seen.iter().all(|&b| b));
}

#[test]
fn grid_z_neighbor_stride_is_xy_product() {
    let size = Size { x: 5, y: 4, z: 3 };
    let v: Volume<u8> = Volume::new(size, 0);
    for z in 0..2 {
        for y in 0..4 {
            for x in 0..5 {
                assert_eq!(v.index(x, y, z + 1) - v.index(x, y, z), 5 * 4);
                if x + 1 < 5 {
                    assert_eq!(v.index(x + 1, y, z) - v.index(x, y, z), 1);
                }
                if y + 1 < 4 {
                    assert_eq!(v.index(x, y + 1, z) - v.index(x, y, z), 5);
                }
            }
        }
    }
}

#[test]
fn grid_out_of_bounds_is_reported() {
    let size = Size { x: 2, y: 2, z: 2 };
    let mut v: Volume<i128> = Volume::new(size, 7);
    assert_eq!(v.try_get(2, 0, 0), Err(HeatError::OutOfBounds));
    assert_eq!(v.try_set(0, 5, 0, 1), Err(HeatError::OutOfBounds));
    assert_eq!(v.try_get(1, 1, 1), Ok(7));
    assert_eq!(v.try_set(1, 1, 1, 9), Ok(()));
    assert_eq!(v.get(1, 1, 1), 9);
}

#[test]
fn size_product_counts_cells() {
    let size = Size { x: 5, y: 4, z: 3 };
    assert_eq!(size.product(), 60);
    let empty = Size { x: 5, y: 0, z: 3 };
    assert_eq!(empty.product(), 0);
}
