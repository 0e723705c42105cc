use tokio_s7::batch::{join_answers, split_read_items, split_write_items};
use tokio_s7::item::{DataItem, RequestItem};

fn items(n: usize) -> Vec<RequestItem> {
    (0..n).map(|i| RequestItem::parse_byte(&format!("DB1.DBB{}", i), 1).unwrap()).collect()
}

fn data(sizes: &[usize]) -> Vec<DataItem> {
    sizes.iter().map(|&n| DataItem::create_req_bytes(vec![0xAA; n]).unwrap()).collect()
}

#[test]
fn read_split_by_pdu() {
    // (240 - 12) / 12 = 19 items per request
    let all = items(40);
    let groups = split_read_items(&all, 240);
    assert_eq!(groups.iter().map(|g| g.len()).collect::<Vec<_>>(), vec![19, 19, 2]);
    let joined: Vec<RequestItem> = groups.concat();
    assert_eq!(joined, all);
}

#[test]
fn read_split_limits() {
    // a tiny PDU still sends one item per request
    let groups = split_read_items(&items(3), 20);
    assert_eq!(groups.iter().map(|g| g.len()).collect::<Vec<_>>(), vec![1, 1, 1]);
    // the item count is one byte: at most 255 items per request
    let groups = split_read_items(&items(300), 65535);
    assert_eq!(groups.iter().map(|g| g.len()).collect::<Vec<_>>(), vec![255, 45]);
    // a read that fits stays one request
    let groups = split_read_items(&items(5), 960);
    assert_eq!(groups.len(), 1);
    assert!(split_read_items(&Vec::new(), 960).is_empty());
}

#[test]
fn write_split_by_pdu() {
    // each item takes 12 request bytes and 4 + 50 data bytes: three fit 240
    // (12 + 36 + 162 = 210), four do not (276)
    let its = items(5);
    let ds = data(&[50, 50, 50, 50, 50]);
    let groups = split_write_items(&its, &ds, 240);
    assert_eq!(groups.iter().map(|g| g.0.len()).collect::<Vec<_>>(), vec![3, 2]);
    assert_eq!(groups.iter().map(|g| g.1.len()).collect::<Vec<_>>(), vec![3, 2]);
    let back_items: Vec<RequestItem> = groups.iter().flat_map(|g| g.0.clone()).collect();
    assert_eq!(back_items, its);
    let back_data: Vec<DataItem> = groups.iter().flat_map(|g| g.1.clone()).collect();
    assert_eq!(back_data, ds);
}

#[test]
fn write_split_fill_bytes_and_lone_items() {
    // two items of 100 bytes need 12 + 24 + 208 = 244 > 240 bytes
    let groups = split_write_items(&items(3), &data(&[100, 100, 100]), 240);
    assert_eq!(groups.iter().map(|g| g.0.len()).collect::<Vec<_>>(), vec![1, 1, 1]);
    // an item larger than the PDU is sent alone
    let groups = split_write_items(&items(2), &data(&[300, 1]), 240);
    assert_eq!(groups.iter().map(|g| g.0.len()).collect::<Vec<_>>(), vec![1, 1]);
    // an odd item is followed by a fill byte: 12 + 24 + 6 + 5 = 47
    assert_eq!(split_write_items(&items(2), &data(&[1, 1]), 47).len(), 1);
    assert_eq!(split_write_items(&items(2), &data(&[1, 1]), 46).len(), 2);
}

#[test]
fn write_split_unequal_lengths_kept_whole() {
    let groups = split_write_items(&items(3), &data(&[1, 2]), 20);
    assert_eq!(groups.len(), 1);
    assert_eq!(groups[0].0.len(), 3);
    assert_eq!(groups[0].1.len(), 2);
}

#[test]
fn answers_joined_in_order() {
    let a = vec![data(&[1, 2]), data(&[]), data(&[3])];
    let joined = join_answers(&a);
    assert_eq!(joined.iter().map(|d| d.data.len()).collect::<Vec<_>>(), vec![1, 2, 3]);
    assert!(join_answers(&Vec::new()).is_empty());
}
