use pathtracer::bvh::{BuildError, BvhNode, BvhTree, LEAF_SIZE};
use pathtracer::camera::sqrt_spp;
use pathtracer::mesh::triangle_corners;
use pathtracer::perlin::{perlin_generate_perm, permute, point_count, PerlinTables};
use pathtracer::plane::Plane;
use pathtracer::ppm::{encode_ppm, pixel_line, ppm_header};
use pathtracer::texture::ImageTexture;

fn leaves_in_order(t: &BvhTree, i: usize, out: &mut Vec<(usize, usize)>) {
    match t.node(i) {
        BvhNode::Leaf { start, end } => out.push((start, end)),
        BvhNode::Branch { left, right, .. } => {
            assert!(left < i && right < i);
            leaves_in_order(t, left, out);
            leaves_in_order(t, right, out);
        }
    }
}

fn assert_leaves_tile(t: &BvhTree, n: usize, leaf_size: usize) {
    let mut leaves = Vec::new();
    leaves_in_order(t, t.root(), &mut leaves);
    let mut next = 0;
    for (s, e) in leaves {
        assert_eq!(s, next);
        assert!(s < e && e - s <= leaf_size);
        next = e;
    }
    assert_eq!(next, n);
}

#[test]
fn bvh_empty_scene_is_refused() {
    assert_eq!(BvhTree::build(0, LEAF_SIZE).err(), Some(BuildError::EmptyScene));
}

#[test]
fn bvh_small_scene_is_one_leaf() {
    let t = BvhTree::build(10, LEAF_SIZE).unwrap();
    assert_eq!(t.node_count(), 1);
    assert_eq!(t.root(), 0);
    assert_eq!(t.node(t.root()), BvhNode::Leaf { start: 0, end: 10 });
    assert_eq!(t.item_count(), 10);
    assert_eq!(t.leaf_size(), 10);
}

#[test]
fn bvh_single_item() {
    let t = BvhTree::build(1, LEAF_SIZE).unwrap();
    assert_eq!(t.node(t.root()), BvhNode::Leaf { start: 0, end: 1 });
}

#[test]
fn bvh_splits_at_the_middle() {
    let t = BvhTree::build(25, 10).unwrap();
    let root = t.node(t.root());
    assert_eq!((root.start(), root.end()), (0, 25));
    let mut leaves = Vec::new();
    leaves_in_order(&t, t.root(), &mut leaves);
    assert_eq!(leaves, vec![(0, 6), (6, 12), (12, 18), (18, 25)]);
    assert_eq!(t.node_count(), 7);
}

#[test]
fn bvh_leaf_size_one_gives_one_item_per_leaf() {
    let t = BvhTree::build(5, 1).unwrap();
    let mut leaves = Vec::new();
    leaves_in_order(&t, t.root(), &mut leaves);
    assert_eq!(leaves, vec![(0, 1), (1, 2), (2, 3), (3, 4), (4, 5)]);
    assert_eq!(t.node_count(), 9);
}

#[test]
fn bvh_leaves_cover_every_item_for_each_leaf_size() {
    for n in 1..200 {
        for leaf_size in [1, 2, 3, 10] {
            let t = BvhTree::build(n, leaf_size).unwrap();
            assert_leaves_tile(&t, n, leaf_size);
        }
    }
}

#[test]
fn plane_axes_match_each_plane() {
    assert_eq!(Plane::YZ.axes(), (0, 1, 2));
    assert_eq!(Plane::XZ.axes(), (1, 0, 2));
    assert_eq!(Plane::XY.axes(), (2, 0, 1));
}

#[test]
fn texel_reads_the_pixel_and_clamps() {
    // 2 x 2 image: row 0 = (1,2,3) (4,5,6); row 1 = (7,8,9) (10,11,12)
    let t = ImageTexture::new((1..=12).collect(), 2, 2);
    assert_eq!(t.texel(0, 0), Some((1, 2, 3)));
    assert_eq!(t.texel(1, 0), Some((4, 5, 6)));
    assert_eq!(t.texel(0, 1), Some((7, 8, 9)));
    assert_eq!(t.texel(9, 9), Some((10, 11, 12)));
    assert_eq!(t.texel(u64::MAX, 0), Some((4, 5, 6)));
    assert_eq!(t.width(), 2);
    assert_eq!(t.height(), 2);
    assert!(!t.is_empty());
}

#[test]
fn texel_of_empty_or_short_image_is_none() {
    let empty = ImageTexture::new(Vec::new(), 0, 0);
    assert!(empty.is_empty());
    assert_eq!(empty.texel(0, 0), None);
    let short = ImageTexture::new(vec![1, 2, 3, 4], 2, 1);
    assert_eq!(short.texel(0, 0), Some((1, 2, 3)));
    assert_eq!(short.texel(1, 0), None);
    let no_rows = ImageTexture::new(vec![1, 2, 3], 1, 0);
    assert_eq!(no_rows.texel(0, 0), None);
}

fn assert_permutation(p: &[i64], n: usize) {
    assert_eq!(p.len(), n);
    let mut seen = vec![false; n];
    for &v in p {
        assert!(v >= 0 && (v as usize) < n);
        assert!(!seen[v as usize]);
        seen[v as usize] = true;
    }
}

#[test]
fn generated_perm_is_a_permutation() {
    assert_eq!(point_count(), 256);
    for _ in 0..20 {
        assert_permutation(&perlin_generate_perm(), 256);
    }
}

#[test]
fn permute_keeps_the_tail_and_the_values() {
    let mut p: Vec<i64> = (0..10).collect();
    permute(&mut p, 6);
    assert_eq!(&p[6..], &[6, 7, 8, 9]);
    assert_permutation(&p, 10);
    let mut q: Vec<i64> = vec![5, 3];
    permute(&mut q, 2);
    // with two entries the only draw is 0, so they trade places
    assert_eq!(q, vec![3, 5]);
}

#[test]
fn lattice_hash_stays_in_range() {
    let t = PerlinTables::new();
    for i in -300..300i64 {
        let h = t.hash(i, 2 * i, -i);
        assert!(h < 256);
        assert_eq!(h, t.hash(i + 256, 2 * i - 512, -i + 256 * 7));
    }
    assert!(t.hash(i64::MIN, i64::MAX, 0) < 256);
}

#[test]
fn ppm_pixel_line_text() {
    assert_eq!(pixel_line(255, 0, 17), b"255 0 17\n".to_vec());
    assert_eq!(pixel_line(0, 0, 0), b"0 0 0\n".to_vec());
    assert_eq!(
        pixel_line(u64::MAX, 10, 9),
        format!("{} 10 9\n", u64::MAX).into_bytes()
    );
}

#[test]
fn ppm_header_text() {
    assert_eq!(ppm_header(800, 600), b"P3\n800 600\n255\n".to_vec());
}

#[test]
fn ppm_whole_image() {
    let px = vec![(1, 2, 3), (40, 50, 60)];
    assert_eq!(encode_ppm(2, 1, &px), b"P3\n2 1\n255\n1 2 3\n40 50 60\n".to_vec());
    assert_eq!(encode_ppm(0, 0, &Vec::new()), b"P3\n0 0\n255\n".to_vec());
}

#[test]
fn sqrt_spp_values() {
    assert_eq!(sqrt_spp(0), 0);
    assert_eq!(sqrt_spp(1), 1);
    assert_eq!(sqrt_spp(3), 1);
    assert_eq!(sqrt_spp(4), 2);
    assert_eq!(sqrt_spp(500), 22);
    assert_eq!(sqrt_spp(u64::MAX), 4294967295);
}

#[test]
fn triangle_corners_of_two_faces() {
    let idx = vec![0, 1, 2, 2, 1, 3];
    assert_eq!(
        triangle_corners(&idx, 12),
        Some(vec![(0, 3, 6), (6, 3, 9)])
    );
}

#[test]
fn triangle_corners_refuses_bad_input() {
    assert_eq!(triangle_corners(&vec![0, 1], 9), None);
    assert_eq!(triangle_corners(&vec![0, 1, 3], 9), None);
    assert_eq!(triangle_corners(&vec![0, 1, 2], 9), Some(vec![(0, 3, 6)]));
    assert_eq!(triangle_corners(&Vec::new(), 0), Some(Vec::new()));
}
