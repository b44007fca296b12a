use dense_matrix::Matrix;
use dense_matrix::Vec2;

fn small_matrix() -> Matrix<i32> {
    Matrix::new([[0, 1], [2, 3]])
}

#[test]
fn creating_filled() {
    let matrix = Matrix::filled(&0, Vec2(4, 3));
    assert_eq!(matrix.as_slice(), &[0, 0, 0, 0, 0, 0, 0, 0, 0, 0, 0, 0]);
    assert_eq!(matrix.size(), Vec2(4, 3));
}

#[test]
fn creating_new() {
    let matrix = Matrix::new([[1, 4, 9], [16, 25, 36], [49, 64, 81]]);
    assert_eq!(matrix.as_slice(), &[1, 4, 9, 16, 25, 36, 49, 64, 81]);
    assert_eq!(matrix.size(), Vec2(3, 3));
}

#[test]
fn size() {
    assert_eq!(small_matrix().size(), Vec2::<usize>(2, 2));
}

#[test]
fn getting() {
    let small_matrix = small_matrix();
    assert_eq!(small_matrix.get(Vec2(1, 0)), Some(&1));
    assert_eq!(small_matrix.get(Vec2(0, 2)), None);
}

#[test]
fn mut_getting() {
    let mut small_matrix = small_matrix();
    match small_matrix.get_mut(Vec2(1, 0)) {
        Some(x) => {
            *x = 8;
            assert_eq!(small_matrix.as_slice()[1], 8);
        }
        None => assert!(false),
    }
    assert_eq!(small_matrix.get(Vec2(1, 0)), Some(&8));
    assert_eq!(small_matrix.as_slice(), &[0, 8, 2, 3]);
}

#[test]
fn swapping() {
    let mut small_matrix = small_matrix();
    small_matrix.swap(Vec2(0, 0), Vec2(1, 1));
    assert_eq!(small_matrix.as_slice(), &[3, 1, 2, 0]);
}

#[test]
fn indexing() {
    let small_matrix = small_matrix();
    assert_eq!(small_matrix[Vec2(1, 0)], 1);
    assert_eq!(small_matrix[Vec2(0, 1)], 2);
}

#[test]
fn mut_indexing() {
    let mut small_matrix = small_matrix();
    small_matrix[Vec2(1, 0)] = 8;
    assert_eq!(small_matrix[Vec2(1, 0)], 8);
    assert_eq!(small_matrix.as_slice(), &[0, 8, 2, 3]);
}

#[test]
fn rows_are_stored_one_after_another() {
    let matrix = Matrix::new([[1, 2, 3], [4, 5, 6]]);
    assert_eq!(matrix.size(), Vec2(3, 2));
    assert_eq!(matrix.as_slice(), &[1, 2, 3, 4, 5, 6]);
    assert_eq!(matrix[Vec2(0, 0)], 1);
    assert_eq!(matrix[Vec2(2, 0)], 3);
    assert_eq!(matrix[Vec2(0, 1)], 4);
    assert_eq!(matrix[Vec2(1, 1)], 5);
    assert_eq!(matrix[Vec2(2, 1)], 6);
    assert_eq!(*matrix.get_unchecked(Vec2(1, 0)), 2);
}

#[test]
fn tall_matrix_offsets() {
    let matrix = Matrix::new([[1, 2], [3, 4], [5, 6]]);
    assert_eq!(matrix.size(), Vec2(2, 3));
    assert_eq!(matrix.get(Vec2(1, 2)), Some(&6));
    assert_eq!(matrix.get(Vec2(0, 2)), Some(&5));
    assert_eq!(matrix.get(Vec2(2, 1)), None);
    assert_eq!(matrix.get(Vec2(2, 0)), None);
    assert_eq!(matrix.get(Vec2(0, 3)), None);
}

#[test]
fn index_check_wants_both_coordinates_inside() {
    let matrix = small_matrix();
    assert!(matrix.check_index(Vec2(0, 0)));
    assert!(matrix.check_index(Vec2(1, 1)));
    assert!(!matrix.check_index(Vec2(2, 0)));
    assert!(!matrix.check_index(Vec2(0, 2)));
    assert!(!matrix.check_index(Vec2(2, 2)));
    assert!(!matrix.check_index(Vec2(5, 5)));
}

#[test]
fn getting_outside_leaves_the_matrix_alone() {
    let mut matrix = small_matrix();
    assert!(matrix.get_mut(Vec2(2, 0)).is_none());
    assert!(matrix.get_mut(Vec2(0, 2)).is_none());
    assert!(matrix.get_mut(Vec2(5, 5)).is_none());
    assert_eq!(matrix.as_slice(), &[0, 1, 2, 3]);
}

#[test]
fn unchecked_mutation_reaches_one_cell() {
    let mut matrix = Matrix::new([[1, 2, 3], [4, 5, 6]]);
    *matrix.get_unchecked_mut(Vec2(2, 1)) = 60;
    *matrix.get_unchecked_mut(Vec2(0, 1)) = 40;
    assert_eq!(matrix.as_slice(), &[1, 2, 3, 40, 5, 60]);
}

#[test]
fn swapping_a_cell_with_itself_changes_nothing() {
    let mut matrix = small_matrix();
    matrix.swap(Vec2(1, 0), Vec2(1, 0));
    assert_eq!(matrix.as_slice(), &[0, 1, 2, 3]);
}

#[test]
fn swapping_across_rows() {
    let mut matrix = Matrix::new([[1, 2, 3], [4, 5, 6]]);
    matrix.swap(Vec2(2, 0), Vec2(0, 1));
    assert_eq!(matrix.as_slice(), &[1, 2, 4, 3, 5, 6]);
    assert_eq!(matrix.size(), Vec2(3, 2));
}

#[test]
fn filling_clones_the_filler_into_every_cell() {
    let filler = String::from("cell");
    let mut matrix = Matrix::filled(&filler, Vec2(2, 3));
    assert_eq!(matrix.size(), Vec2(2, 3));
    assert_eq!(matrix.as_slice().len(), 6);
    assert!(matrix.as_slice().iter().all(|item| item == "cell"));
    matrix[Vec2(1, 2)].push('!');
    assert_eq!(matrix.as_slice()[5], "cell!");
    assert_eq!(matrix.as_slice()[4], "cell");
    assert_eq!(filler, "cell");
}

#[test]
fn empty_shapes_hold_nothing() {
    let wide: Matrix<i32> = Matrix::filled(&7, Vec2(3, 0));
    assert_eq!(wide.size(), Vec2(3, 0));
    assert!(wide.as_slice().is_empty());
    assert_eq!(wide.get(Vec2(0, 0)), None);
    let tall: Matrix<i32> = Matrix::filled(&7, Vec2(0, 3));
    assert!(tall.as_slice().is_empty());
    assert_eq!(tall.get(Vec2(0, 0)), None);
    let none: Matrix<i32> = Matrix::new([[]; 0]);
    assert_eq!(none.size(), Vec2(0, 0));
    assert!(none.as_slice().is_empty());
}

#[test]
fn matrices_compare_by_shape_and_items() {
    assert_eq!(small_matrix(), Matrix::new([[0, 1], [2, 3]]));
    assert_ne!(small_matrix(), Matrix::new([[0, 1], [2, 4]]));
    assert_ne!(Matrix::new([[0, 1, 2, 3]]), Matrix::new([[0], [1], [2], [3]]));
    assert_eq!(Matrix::filled(&0, Vec2(4, 3)), Matrix::new([[0; 4]; 3]));
}

#[test]
fn cloning_a_matrix() {
    let matrix = small_matrix();
    let mut copy = matrix.clone();
    assert_eq!(copy, matrix);
    copy[Vec2(0, 0)] = 9;
    assert_eq!(matrix.as_slice(), &[0, 1, 2, 3]);
    assert_eq!(copy.as_slice(), &[9, 1, 2, 3]);
}

#[test]
fn items_need_not_be_copied() {
    let matrix = Matrix::new([[String::from("a"), String::from("b")]]);
    assert_eq!(matrix.size(), Vec2(2, 1));
    assert_eq!(matrix[Vec2(1, 0)], "b");
    assert_eq!(matrix.get(Vec2(0, 0)).map(String::as_str), Some("a"));
}
