use xgboost_predict::float_bits::{is_zero_bits, lt_bits};
use xgboost_predict::{FVec, XGBModel, XGBNode, XGBTree};

const OBJ: &[u8] = b"binary:logistic";
const GBM: &[u8] = b"gbtree";
const FLAG_DEFAULT_LEFT: u32 = 1 << 31;

fn push_u32(b: &mut Vec<u8>, v: u32) {
    b.extend_from_slice(&v.to_le_bytes());
}

fn push_i32(b: &mut Vec<u8>, v: i32) {
    b.extend_from_slice(&v.to_le_bytes());
}

fn push_u64(b: &mut Vec<u8>, v: u64) {
    b.extend_from_slice(&v.to_le_bytes());
}

fn push_f32(b: &mut Vec<u8>, v: f32) {
    b.extend_from_slice(&v.to_le_bytes());
}

fn pad(b: &mut Vec<u8>, n: usize) {
    b.extend(std::iter::repeat(0xAAu8).take(n));
}

fn header_with_tags(b: &mut Vec<u8>, obj: &[u8], gbm: &[u8], num_trees: i32, num_features: i32) {
    push_f32(b, 0.5);
    pad(b, 4 * 33);
    push_u64(b, obj.len() as u64);
    b.extend_from_slice(obj);
    push_u64(b, gbm.len() as u64);
    b.extend_from_slice(gbm);
    push_i32(b, num_trees);
    pad(b, 4);
    push_i32(b, num_features);
    pad(b, 12);
    push_i32(b, 1);
    pad(b, 4 * 33);
}

fn header(b: &mut Vec<u8>, num_trees: i32, num_features: i32) {
    header_with_tags(b, OBJ, GBM, num_trees, num_features);
}

/// A node record: parent, left, right, split word, value.
type Rec = (i32, i32, i32, u32, f32);

fn tree(b: &mut Vec<u8>, nodes: &[Rec], leaf_vector: Option<u64>) {
    pad(b, 4);
    push_i32(b, nodes.len() as i32);
    pad(b, 12);
    push_i32(b, if leaf_vector.is_some() { 1 } else { 0 });
    pad(b, 4 * 31);
    for &(parent, left, right, split, value) in nodes {
        push_i32(b, parent);
        push_i32(b, left);
        push_i32(b, right);
        push_u32(b, split);
        push_f32(b, value);
    }
    pad(b, 16 * nodes.len());
    if let Some(k) = leaf_vector {
        push_u64(b, k);
        pad(b, 4 * k as usize);
    }
}

/// Root split on `feature` at `threshold`, left leaf `lv`, right leaf `rv`.
fn stump(feature: u32, threshold: f32, lv: f32, rv: f32, default_left: bool) -> Vec<Rec> {
    let split = feature | if default_left { FLAG_DEFAULT_LEFT } else { 0 };
    vec![(-1, 1, 2, split, threshold), (0, -1, -1, 0, lv), (0, -1, -1, 0, rv)]
}

fn one_stump_model(default_left: bool) -> Vec<u8> {
    let mut b = Vec::new();
    header(&mut b, 1, 4);
    tree(&mut b, &stump(0, 0.5, 1.0, 2.0, default_left), None);
    b
}

/// Three trees; the second carries a leaf vector trailer.
fn three_tree_model() -> Vec<u8> {
    let mut b = Vec::new();
    header(&mut b, 3, 3);
    tree(&mut b, &stump(0, 0.5, 1.0, 2.0, true), None);
    tree(&mut b, &stump(1, -1.5, 0.25, -0.75, false), Some(3));
    let deeper = vec![
        (-1, 1, 2, 2, 10.0),
        (0, 3, 4, 0 | FLAG_DEFAULT_LEFT, 0.0),
        (0, -1, -1, 0, 5.0),
        (1, -1, -1, 0, -3.0),
        (1, -1, -1, 0, 7.5),
    ];
    tree(&mut b, &deeper, None);
    b
}

fn feats(n: usize, pairs: &[(u32, f32)]) -> FVec {
    let mut f = FVec::new(n);
    let idx: Vec<u32> = pairs.iter().map(|p| p.0).collect();
    let vals: Vec<u32> = pairs.iter().map(|p| p.1.to_bits()).collect();
    f.set(&idx, &vals);
    f
}

fn value(model: &XGBModel, f: &FVec, limit: usize) -> f32 {
    let mut sum = 0.0f32;
    for bits in model.predict_leaf_values(f, limit) {
        sum += f32::from_bits(bits);
    }
    sum
}

#[test]
fn stump_present_feature_goes_right() {
    let model = XGBModel::load(&one_stump_model(true)).unwrap();
    let f = feats(4, &[(0, 0.9)]);
    assert!(model.supports(&f));
    let mut preds = vec![99u32; 1];
    model.predict_leaf(&f, 0, &mut preds);
    assert_eq!(preds, vec![2]);
    assert_eq!(value(&model, &f, 0), 2.0);
}

#[test]
fn stump_present_feature_below_threshold_goes_left() {
    let model = XGBModel::load(&one_stump_model(false)).unwrap();
    let f = feats(4, &[(0, 0.1)]);
    let mut preds = vec![99u32; 1];
    model.predict_leaf(&f, 1, &mut preds);
    assert_eq!(preds, vec![1]);
    assert_eq!(value(&model, &f, 1), 1.0);
}

#[test]
fn stump_missing_feature_follows_flag_set_to_left() {
    let model = XGBModel::load(&one_stump_model(true)).unwrap();
    let f = FVec::new(4);
    let mut preds = vec![99u32; 1];
    model.predict_leaf(&f, 0, &mut preds);
    assert_eq!(preds, vec![1]);
    assert_eq!(value(&model, &f, 0), 1.0);
}

#[test]
fn stump_missing_feature_follows_clear_flag_to_right() {
    let model = XGBModel::load(&one_stump_model(false)).unwrap();
    let f = FVec::new(4);
    let mut preds = vec![99u32; 1];
    model.predict_leaf(&f, 0, &mut preds);
    assert_eq!(preds, vec![2]);
    assert_eq!(value(&model, &f, 0), 2.0);
}

#[test]
fn explicit_zero_counts_as_missing() {
    let model = XGBModel::load(&one_stump_model(false)).unwrap();
    let f = feats(4, &[(0, 0.0)]);
    assert_eq!(value(&model, &f, 0), 2.0);
    let g = feats(4, &[(0, -0.0)]);
    assert_eq!(value(&model, &g, 0), 2.0);
}

#[test]
fn node_load_resolves_default_from_top_bit() {
    let mut b = Vec::new();
    for &(split, expected_default) in &[(7u32 | FLAG_DEFAULT_LEFT, 1usize), (7u32, 2usize)] {
        b.clear();
        push_i32(&mut b, -1);
        push_i32(&mut b, 1);
        push_i32(&mut b, 2);
        push_u32(&mut b, split);
        push_f32(&mut b, 0.5);
        let node = XGBNode::load(&b, 0, 0, 3).unwrap();
        assert_eq!(
            node,
            XGBNode::Split {
                feature: 7,
                threshold: 0.5f32.to_bits(),
                left: 1,
                right: 2,
                default: expected_default,
            }
        );
        assert!(!node.is_leaf());
    }
}

#[test]
fn node_load_reads_leaf_value() {
    let mut b = Vec::new();
    pad(&mut b, 3);
    push_i32(&mut b, 0);
    push_i32(&mut b, -1);
    push_i32(&mut b, 12345);
    push_u32(&mut b, 0x1234_5678);
    push_f32(&mut b, -2.25);
    let node = XGBNode::load(&b, 3, 4, 5).unwrap();
    assert_eq!(node, XGBNode::Leaf { value: (-2.25f32).to_bits() });
    assert!(node.is_leaf());
}

#[test]
fn node_load_rejects_child_before_parent() {
    let mut b = Vec::new();
    push_i32(&mut b, 0);
    push_i32(&mut b, 1);
    push_i32(&mut b, 3);
    push_u32(&mut b, 0);
    push_f32(&mut b, 0.5);
    assert!(XGBNode::load(&b, 0, 2, 5).is_none());
    assert!(XGBNode::load(&b, 0, 0, 3).is_none());
    assert!(XGBNode::load(&b, 0, 0, 4).is_some());
}

#[test]
fn tree_load_reports_section_length() {
    let mut b = Vec::new();
    tree(&mut b, &stump(0, 0.5, 1.0, 2.0, true), None);
    let total = b.len();
    let (len, t) = XGBTree::load(&b, 0).unwrap();
    assert_eq!(len, 148 + 3 * 36);
    assert_eq!(len, total);
    assert_eq!(t.get_leaf_value(2), 2.0f32.to_bits());
    let mut c = Vec::new();
    tree(&mut c, &stump(0, 0.5, 1.0, 2.0, true), Some(5));
    let (len, _) = XGBTree::load(&c, 0).unwrap();
    assert_eq!(len, 148 + 3 * 36 + 8 + 20);
}

#[test]
fn tree_load_rejects_empty_and_truncated() {
    let mut b = Vec::new();
    tree(&mut b, &[], None);
    assert!(XGBTree::load(&b, 0).is_none());
    let mut c = Vec::new();
    tree(&mut c, &stump(0, 0.5, 1.0, 2.0, true), Some(2));
    c.pop();
    assert!(XGBTree::load(&c, 0).is_none());
}

#[test]
fn load_reads_counts() {
    let model = XGBModel::load(&three_tree_model()).unwrap();
    assert_eq!(model.num_trees(), 3);
    assert_eq!(model.num_features(), 3);
}

#[test]
fn load_twice_predicts_alike() {
    let bytes = three_tree_model();
    let a = XGBModel::load(&bytes).unwrap();
    let b = XGBModel::load(&bytes).unwrap();
    for f in [FVec::new(3), feats(3, &[(0, 0.9), (1, -2.0), (2, 11.0)]), feats(3, &[(2, 3.0)])] {
        let mut pa = vec![0u32; 3];
        let mut pb = vec![0u32; 3];
        a.predict_leaf(&f, 0, &mut pa);
        b.predict_leaf(&f, 0, &mut pb);
        assert_eq!(pa, pb);
        assert_eq!(a.predict_leaf_values(&f, 0), b.predict_leaf_values(&f, 0));
    }
}

#[test]
fn three_trees_leaves_and_values() {
    let model = XGBModel::load(&three_tree_model()).unwrap();
    let f = feats(3, &[(0, 0.9), (1, -2.0), (2, 3.0)]);
    let mut preds = vec![0u32; 4];
    model.predict_leaf(&f, 0, &mut preds);
    assert_eq!(preds, vec![2, 1, 4, 0]);
    assert_eq!(
        model.predict_leaf_values(&f, 0),
        vec![2.0f32.to_bits(), 0.25f32.to_bits(), 7.5f32.to_bits()]
    );
    assert_eq!(value(&model, &f, 0), 9.75);
    let g = feats(3, &[(1, -2.0), (2, 3.0), (0, -1.0)]);
    model.predict_leaf(&g, 0, &mut preds);
    assert_eq!(preds, vec![1, 1, 3, 0]);
    assert_eq!(value(&model, &g, 0), 1.0 + 0.25 - 3.0);
}

#[test]
fn tree_limit_gives_running_sums() {
    let model = XGBModel::load(&three_tree_model()).unwrap();
    let f = feats(3, &[(0, 0.1), (1, 4.0), (2, 12.0)]);
    let all = model.predict_leaf_values(&f, 0);
    assert_eq!(all, model.predict_leaf_values(&f, model.num_trees()));
    let mut running = 0.0f32;
    for k in 1..=model.num_trees() {
        let part = model.predict_leaf_values(&f, k);
        assert_eq!(part, all[..k].to_vec());
        running += f32::from_bits(all[k - 1]);
        assert_eq!(value(&model, &f, k), running);
    }
    assert_eq!(value(&model, &f, 0), 1.0 - 0.75 + 5.0);
    assert_eq!(value(&model, &f, 0), value(&model, &f, model.num_trees()));
}

#[test]
fn predict_leaf_leaves_later_slots_alone() {
    let model = XGBModel::load(&three_tree_model()).unwrap();
    let f = FVec::new(3);
    let mut preds = vec![77u32; 5];
    model.predict_leaf(&f, 2, &mut preds);
    assert_eq!(preds, vec![1, 2, 77, 77, 77]);
}

#[test]
fn supports_checks_feature_positions() {
    let model = XGBModel::load(&three_tree_model()).unwrap();
    assert!(model.supports(&FVec::new(3)));
    assert!(!model.supports(&FVec::new(2)));
}

#[test]
fn load_rejects_zero_trees() {
    let mut b = Vec::new();
    header(&mut b, 0, 4);
    assert!(XGBModel::load(&b).is_none());
}

#[test]
fn load_rejects_negative_features() {
    let mut b = Vec::new();
    header(&mut b, 1, -1);
    tree(&mut b, &stump(0, 0.5, 1.0, 2.0, true), None);
    assert!(XGBModel::load(&b).is_none());
    let mut c = Vec::new();
    header(&mut c, -3, 4);
    tree(&mut c, &stump(0, 0.5, 1.0, 2.0, true), None);
    assert!(XGBModel::load(&c).is_none());
}

#[test]
fn load_rejects_zero_trees_in_short_buffer() {
    let mut b = Vec::new();
    header(&mut b, 0, 4);
    b.truncate(b.len() - 100);
    assert!(XGBModel::load(&b).is_none());
}

#[test]
fn load_rejects_truncation_everywhere() {
    let bytes = three_tree_model();
    for cut in [0, 10, 140, 150, 170, 200, bytes.len() / 2, bytes.len() - 1] {
        assert!(XGBModel::load(&bytes[..cut]).is_none(), "cut at {}", cut);
    }
}

#[test]
fn load_rejects_missing_tree() {
    let mut b = Vec::new();
    header(&mut b, 2, 4);
    tree(&mut b, &stump(0, 0.5, 1.0, 2.0, true), None);
    assert!(XGBModel::load(&b).is_none());
}

#[test]
fn load_rejects_tag_that_is_not_utf8() {
    let mut b = Vec::new();
    header_with_tags(&mut b, &[0x62, 0xff, 0x62], GBM, 1, 4);
    tree(&mut b, &stump(0, 0.5, 1.0, 2.0, true), None);
    assert!(XGBModel::load(&b).is_none());
    let mut c = Vec::new();
    header_with_tags(&mut c, OBJ, &[0xc3], 1, 4);
    tree(&mut c, &stump(0, 0.5, 1.0, 2.0, true), None);
    assert!(XGBModel::load(&c).is_none());
}

#[test]
fn load_accepts_multibyte_and_empty_tags() {
    let mut b = Vec::new();
    header_with_tags(&mut b, "réseau".as_bytes(), b"", 1, 4);
    tree(&mut b, &stump(0, 0.5, 1.0, 2.0, true), None);
    let model = XGBModel::load(&b).unwrap();
    assert_eq!(model.num_trees(), 1);
}

#[test]
fn load_rejects_child_out_of_range() {
    let mut b = Vec::new();
    header(&mut b, 1, 4);
    tree(&mut b, &[(-1, 1, 5, 0, 0.5), (0, -1, -1, 0, 1.0), (0, -1, -1, 0, 2.0)], None);
    assert!(XGBModel::load(&b).is_none());
}

#[test]
fn float_order_on_bits() {
    let pairs: [(f32, f32); 9] = [
        (0.9, 0.5),
        (0.5, 0.9),
        (-1.0, 0.5),
        (-2.0, -1.0),
        (-1.0, -2.0),
        (-0.0, 0.0),
        (0.0, -0.0),
        (f32::NEG_INFINITY, f32::MIN),
        (1.0, f32::INFINITY),
    ];
    for (a, b) in pairs {
        assert_eq!(lt_bits(a.to_bits(), b.to_bits()), a < b, "{} < {}", a, b);
    }
    assert!(!lt_bits(f32::NAN.to_bits(), 1.0f32.to_bits()));
    assert!(!lt_bits(1.0f32.to_bits(), f32::NAN.to_bits()));
    assert!(is_zero_bits(0.0f32.to_bits()));
    assert!(is_zero_bits((-0.0f32).to_bits()));
    assert!(!is_zero_bits(f32::MIN_POSITIVE.to_bits()));
}
