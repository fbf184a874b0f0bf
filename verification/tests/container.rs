use aoc22::arr2d::Array2d;
use aoc22::arr_nd::ArrayND;
use aoc22::ArrayError;

#[test]
fn test_array_nd() {
    let mut x: i32 = 0;
    let mut arr = ArrayND::new(x, [2, 3, 4, 5]).unwrap();
    let mut ind = [0 as isize; 4];
    for i in 0..2 {
        ind[0] = i;
        for j in 0..3 {
            ind[1] = j;
            for k in 0..4 {
                ind[2] = k;
                for l in 0..5 {
                    ind[3] = l;
                    arr.get_mut(&ind, x).unwrap();
                    x += 1;
                }
            }
        }
    }
    let arr = arr;
    x = 0;
    for i in 0..2 {
        for j in 0..3 {
            for k in 0..4 {
                for l in 0..5 {
                    assert_eq!(*arr.get(&[i, j, k, l]).unwrap(), x);
                    x += 1;
                }
            }
        }
    }
}

#[test]
fn test_new_fills_every_cell() {
    let arr = Array2d::new(9i64, 2, 3).unwrap();
    assert_eq!(arr.size_u(), (2, 3));
    assert_eq!(arr.size_i(), (2, 3));
    for i in 0..2 {
        for j in 0..3 {
            assert_eq!(*arr.get((i, j)).unwrap(), 9);
            assert_eq!(*arr.getu((i as usize, j as usize)).unwrap(), 9);
        }
    }
    let nd = ArrayND::newu(7u8, [2, 2, 2]).unwrap();
    for i in 0..2usize {
        for j in 0..2 {
            for k in 0..2 {
                assert_eq!(*nd.getu(&[i, j, k]).unwrap(), 7);
            }
        }
    }
}

#[test]
fn test_write_read_round_trip() {
    let mut arr = Array2d::newu(0i32, 3, 4).unwrap();
    arr.get_mutu((1, 2), 7).unwrap();
    assert_eq!(*arr.getu((1, 2)).unwrap(), 7);
    for i in 0..3usize {
        for j in 0..4usize {
            if (i, j) != (1, 2) {
                assert_eq!(*arr.getu((i, j)).unwrap(), 0);
            }
        }
    }
}

#[test]
fn test_set_then_get() {
    let mut arr = Array2d::new(0i32, 3, 4).unwrap();
    arr.get_mut((1, 2), 7).unwrap();
    assert_eq!(*arr.get((1, 2)).unwrap(), 7);
    assert_eq!(*arr.get((0, 2)).unwrap(), 0);
    assert_eq!(arr.get((3, 0)), Err(ArrayError::OutOfBounds));
}

#[test]
fn test_row_append_growth() {
    let mut arr: Array2d<i32> = Array2d::new_empty();
    assert_eq!(arr.size_u(), (0, 0));
    arr.add_row(&vec![1, 2, 3]).unwrap();
    assert_eq!(arr.size_u(), (3, 1));
    assert_eq!(arr.add_row(&vec![4, 5]), Err(ArrayError::DimensionMismatch));
    assert_eq!(arr.size_u(), (3, 1));
    arr.add_row(&vec![4, 5, 6]).unwrap();
    arr.add_row(&vec![7, 8, 9]).unwrap();
    assert_eq!(arr.size_u(), (3, 3));
    assert_eq!(*arr.get((1, 2)).unwrap(), 8);
}

#[test]
fn test_row_major_striding() {
    // Writing one unique value per flat offset through add_row and reading
    // back through coordinates shows offset(i, j) == i + size_i * j.
    let mut arr: Array2d<usize> = Array2d::new_empty();
    let e1 = 3usize;
    let e2 = 4usize;
    for j in 0..e2 {
        let row: Vec<usize> = (0..e1).map(|i| i + e1 * j).collect();
        arr.add_row(&row).unwrap();
    }
    for i in 0..e1 {
        for j in 0..e2 {
            assert_eq!(*arr.getu((i, j)).unwrap(), i + e1 * j);
        }
    }
}

#[test]
fn test_out_of_bounds_never_a_value() {
    let arr = Array2d::new(5i32, 3, 4).unwrap();
    assert_eq!(arr.get((-1, 0)), Err(ArrayError::OutOfBounds));
    assert_eq!(arr.get((0, -1)), Err(ArrayError::OutOfBounds));
    assert_eq!(arr.get((3, 0)), Err(ArrayError::OutOfBounds));
    assert_eq!(arr.get((0, 4)), Err(ArrayError::OutOfBounds));
    assert_eq!(arr.getu((3, 0)), Err(ArrayError::OutOfBounds));
    let mut arr = arr;
    assert_eq!(arr.get_mut((0, 4), 1), Err(ArrayError::OutOfBounds));
    assert_eq!(arr.get_mutu((0, 4), 1), Err(ArrayError::OutOfBounds));
    // The failed write changed nothing.
    assert_eq!(*arr.get((2, 3)).unwrap(), 5);

    let nd = ArrayND::new(0i32, [2, 2]).unwrap();
    assert_eq!(nd.get(&[-1, 0]), Err(ArrayError::OutOfBounds));
    assert_eq!(nd.get(&[0, 2]), Err(ArrayError::OutOfBounds));
    assert_eq!(nd.getu(&[2, 0]), Err(ArrayError::OutOfBounds));
    let mut nd = nd;
    assert_eq!(nd.get_mut(&[2, 0], 1), Err(ArrayError::OutOfBounds));
    assert_eq!(nd.get_mutu(&[0, 2], 1), Err(ArrayError::OutOfBounds));
}

#[test]
fn test_invalid_construction() {
    assert_eq!(Array2d::new(0i32, -1, 4).err(), Some(ArrayError::InvalidSize));
    assert_eq!(Array2d::new(0i32, 4, -1).err(), Some(ArrayError::InvalidSize));
    assert_eq!(
        Array2d::newu(0u8, usize::MAX, 2).err(),
        Some(ArrayError::InvalidSize)
    );
    assert_eq!(
        ArrayND::new(0i32, [2, -3]).err(),
        Some(ArrayError::InvalidSize)
    );
    assert_eq!(
        ArrayND::newu(0u8, [usize::MAX / 4, 16]).err(),
        Some(ArrayError::InvalidSize)
    );
}

#[test]
fn test_zero_extent_with_huge_neighbours() {
    // A zero extent zeroes the element count, so construction succeeds no
    // matter how large the other extents are.
    let nd = ArrayND::newu(0u8, [65536, 65536, 65536, 65536, 0]).unwrap();
    assert_eq!(nd.size_u(), [65536, 65536, 65536, 65536, 0]);
    assert_eq!(nd.getu(&[0, 0, 0, 0, 0]), Err(ArrayError::OutOfBounds));
    assert_eq!(nd.get(&[1, 1, 1, 1, 0]), Err(ArrayError::OutOfBounds));
    let nd2 = ArrayND::new(0u8, [0, isize::MAX, isize::MAX]).unwrap();
    assert_eq!(nd2.get(&[0, 0, 0]), Err(ArrayError::OutOfBounds));
}

#[test]
fn test_zero_extents() {
    let arr = Array2d::new(1i32, 0, 5).unwrap();
    assert_eq!(arr.size_u(), (0, 5));
    assert_eq!(arr.get((0, 0)), Err(ArrayError::OutOfBounds));
    let nd = ArrayND::new(1i32, [3, 0, 2]).unwrap();
    assert_eq!(nd.size_u(), [3, 0, 2]);
    assert_eq!(nd.size_i(), [3, 0, 2]);
    assert_eq!(nd.get(&[0, 0, 0]), Err(ArrayError::OutOfBounds));
}
