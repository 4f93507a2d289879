use jj_status::ident::{shortest, shortest_unique_prefix_len, split_at_prefix};

#[test]
fn prefix_splits_at_first_divergence() {
    let (prefix, rest) = split_at_prefix("a1b2c3d4", 3, 8);
    assert_eq!(prefix, "a1b");
    assert_eq!(rest, "2c3d4");
}

#[test]
fn prefix_and_rest_rebuild_the_truncated_rendering() {
    for prefix_len in 0..12 {
        for total_len in 0..12 {
            let (prefix, rest) = split_at_prefix("zyxwvuts", prefix_len, total_len);
            let shown: String = "zyxwvuts".chars().take(total_len).collect();
            assert_eq!(format!("{prefix}{rest}"), shown);
            assert_eq!(prefix.len(), prefix_len.min(shown.len()));
        }
    }
}

#[test]
fn change_id_is_rendered_in_reverse_hex() {
    let (prefix, rest) = shortest(&[0x01, 0x23, 0x45, 0x67, 0x89, 0xab], 2, 8);
    assert_eq!(prefix, "zy");
    assert_eq!(rest, "xwvuts");
}

#[test]
fn long_prefix_takes_the_whole_shown_part() {
    let (prefix, rest) = shortest(&[0xcd, 0xef], 10, 3);
    assert_eq!(prefix, "nml");
    assert_eq!(rest, "");
}

#[test]
fn short_rendering_is_shown_whole() {
    let (prefix, rest) = shortest(&[0xff], 1, 8);
    assert_eq!(prefix, "k");
    assert_eq!(rest, "k");
}

#[test]
fn prefix_length_is_where_known_ids_diverge() {
    let target = vec![0xa1, 0xb2, 0xc3, 0xd4];
    let known = vec![target.clone(), vec![0xa1, 0xc2, 0xc3, 0xd4]];
    let prefix_len = shortest_unique_prefix_len(&known, &target);
    assert_eq!(prefix_len, 3);
    let (prefix, rest) = split_at_prefix("a1b2c3d4", prefix_len, 8);
    assert_eq!(prefix, "a1b");
    assert_eq!(rest, "2c3d4");
}

#[test]
fn prefix_length_takes_the_closest_other_id() {
    let target = vec![0x12, 0x34];
    let known = vec![vec![0x12, 0x35], vec![0x90, 0x00], target.clone(), vec![0x13, 0x34]];
    assert_eq!(shortest_unique_prefix_len(&known, &target), 4);
    let known = vec![vec![0x22, 0x34], target.clone()];
    assert_eq!(shortest_unique_prefix_len(&known, &target), 1);
}

#[test]
fn lone_id_needs_one_digit() {
    let target = vec![0xab, 0xcd];
    assert_eq!(shortest_unique_prefix_len(&vec![target.clone()], &target), 1);
    assert_eq!(shortest_unique_prefix_len(&Vec::new(), &target), 1);
}

#[test]
fn prefix_of_rendered_id_is_unique() {
    let target = vec![0x01, 0x23];
    let known = vec![target.clone(), vec![0x01, 0x24]];
    let prefix_len = shortest_unique_prefix_len(&known, &target);
    assert_eq!(prefix_len, 4);
    assert_eq!(shortest(&target, prefix_len, 8), ("zyxw".to_string(), "".to_string()));
}
