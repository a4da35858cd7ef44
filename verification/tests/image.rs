use mister_core::image::{Channel, Image};

#[test]
fn channel_capacity() {
    let new_channel = Channel::new(0, 10);
    assert_eq!(new_channel.capacity(), 10);
}

#[test]
fn channel_len() {
    let new_channel = Channel::new(0, 10);
    assert_eq!(new_channel.len(), 10);
}

#[test]
fn channel_resize() {
    let mut new_channel = Channel::new(0, 10);
    // Resizing must change the length.
    new_channel = new_channel.resize(60);
    assert_eq!(new_channel.len(), 60);
}

#[test]
fn channel_write() {
    let mut new_channel = Channel::new(0u8, 10);
    let len = new_channel.len();
    new_channel.write(4, 21);
    assert_eq!(len, new_channel.len()); // length cannot change with write!
    let mut it = new_channel.iter();
    assert_eq!(
        std::iter::from_fn(|| it.next()).cloned().collect::<Vec<_>>(),
        vec![0, 0, 0, 0, 21, 0, 0, 0, 0, 0]
    );
}

#[test]
fn channel_getting() {
    let mut new_channel = Channel::new(0u8, 10);
    let len = new_channel.len();
    new_channel.write(4, 21);
    assert_eq!(len, new_channel.len()); // length cannot change with write!
    assert_eq!(new_channel.get(4).cloned(), Some(21));
    new_channel.get_mut(4).map(|x| *x = 42);
    assert_eq!(new_channel.get(4).cloned(), Some(42));
}

#[test]
fn imagedata_single_channel() {
    let mut new_data = Image::new(5);
    new_data.create_channel(0); // the value passed is the default value
    assert_eq!(new_data.count(), 1);
    // Let's change something
    new_data.channel_mut(0).unwrap().write(1, 21);
    let mut it = new_data.channel(0).unwrap().iter();
    assert_eq!(
        std::iter::from_fn(|| it.next()).cloned().collect::<Vec<_>>(),
        vec![0, 21, 0, 0, 0]
    );
}

#[test]
fn imagedata_double_channel() {
    let mut new_data = Image::new(5);
    new_data.create_channel(0); // the value passed is the default value
    new_data.create_channel(1);
    // Let's change something
    assert_eq!(new_data.count(), 2);
    new_data.channel_mut(0).unwrap().write(1, 21);
    new_data.channel_mut(1).unwrap().write(2, 22);
    let mut first = new_data.channel(0).unwrap().iter();
    assert_eq!(
        std::iter::from_fn(|| first.next()).cloned().collect::<Vec<_>>(),
        vec![0, 21, 0, 0, 0]
    );
    let mut second = new_data[1].iter();
    assert_eq!(
        std::iter::from_fn(|| second.next()).cloned().collect::<Vec<_>>(),
        vec![1, 1, 22, 1, 1]
    );
}

#[test]
fn imagedata_resize() {
    let mut new_data = Image::new(5);
    new_data.create_channel(0); // the value passed is the default value
    new_data.create_channel(1);
    // resize the channel
    new_data.resize(3);
    assert_eq!(new_data.len(), 3);
}

#[test]
fn imagedata_channel_length() {
    let mut new_data = Image::new(5);
    new_data.create_channel(());
    new_data.create_channel(());

    assert_eq!(new_data.len(), new_data[0].len());
    assert_eq!(new_data.len(), new_data[1].len());
}

#[test]
fn channel_new_holds_the_default_everywhere() {
    let channel = Channel::new(7u16, 4);
    assert_eq!(channel.len(), 4);
    for i in 0..4 {
        assert_eq!(channel.get(i), Some(&7));
    }
    let empty = Channel::new(7u16, 0);
    assert_eq!(empty.len(), 0);
    assert_eq!(empty.get(0), None);
}

#[test]
fn channel_resize_reaches_every_length() {
    for length in [0usize, 1, 5, 17] {
        for new_length in [0usize, 1, 4, 5, 6, 40] {
            let channel = Channel::new(3i64, length).resize(new_length);
            assert_eq!(channel.len(), new_length);
            assert_eq!(channel.capacity(), new_length);
        }
    }
}

#[test]
fn channel_resize_keeps_the_prefix() {
    let mut channel = Channel::new(0u8, 6);
    for i in 0..6 {
        channel.write(i, 10 + i as u8);
    }
    let shorter = channel.resize(4);
    let mut it = shorter.iter();
    assert_eq!(std::iter::from_fn(|| it.next()).cloned().collect::<Vec<_>>(), vec![10, 11, 12, 13]);
    let longer = shorter.resize(7);
    let mut it = longer.iter();
    assert_eq!(
        std::iter::from_fn(|| it.next()).cloned().collect::<Vec<_>>(),
        vec![10, 11, 12, 13, 0, 0, 0]
    );
}

#[test]
fn channel_regrow_refills_with_the_default() {
    let mut channel = Channel::new(9u32, 5);
    for i in 0..5 {
        channel.write(i, 100 + i as u32);
    }
    let channel = channel.resize(2).resize(5);
    assert_eq!(channel.get(0), Some(&100));
    assert_eq!(channel.get(1), Some(&101));
    assert_eq!(channel.get(2), Some(&9));
    assert_eq!(channel.get(3), Some(&9));
    assert_eq!(channel.get(4), Some(&9));
}

#[test]
fn channel_resize_twice_is_resize_once() {
    let mut channel = Channel::new(1u8, 3);
    channel.write(1, 50);
    let once = channel.clone().resize(8);
    let twice = channel.resize(8).resize(8);
    let mut a = once.iter();
    let mut b = twice.iter();
    assert_eq!(
        std::iter::from_fn(|| a.next()).cloned().collect::<Vec<_>>(),
        std::iter::from_fn(|| b.next()).cloned().collect::<Vec<_>>()
    );
    assert_eq!(twice.len(), 8);
}

#[test]
fn channel_write_changes_one_index_only() {
    let mut channel = Channel::new(0i32, 5);
    channel.write(0, -1);
    channel.write(4, 8);
    assert_eq!(channel.len(), 5);
    assert_eq!(channel.get(0), Some(&-1));
    assert_eq!(channel.get(1), Some(&0));
    assert_eq!(channel.get(2), Some(&0));
    assert_eq!(channel.get(3), Some(&0));
    assert_eq!(channel.get(4), Some(&8));
}

#[test]
fn channel_get_past_the_end_is_none() {
    let mut channel = Channel::new(0u8, 3);
    assert_eq!(channel.get(2), Some(&0));
    assert_eq!(channel.get(3), None);
    assert_eq!(channel.get(usize::MAX), None);
    assert!(channel.get_mut(2).is_some());
    assert!(channel.get_mut(3).is_none());
    assert_eq!(channel.get_clone(2), Some(0));
    assert_eq!(channel.get_clone(3), None);
}

#[test]
fn channel_index_reads_what_get_reads() {
    let mut channel = Channel::new(0u8, 3);
    channel.write(1, 77);
    assert_eq!(channel[0], 0);
    assert_eq!(channel[1], 77);
    assert_eq!(Some(&channel[2]), channel.get(2));
}

#[test]
fn channel_iter_walks_in_index_order() {
    let mut channel = Channel::new(0u8, 3);
    channel.write(0, 1);
    channel.write(1, 2);
    channel.write(2, 3);
    let mut it = channel.iter();
    assert_eq!(it.size_hint(), (3, Some(3)));
    assert_eq!(it.next(), Some(&1));
    assert_eq!(it.next(), Some(&2));
    assert_eq!(it.next(), Some(&3));
    assert_eq!(it.next(), None);
    assert_eq!(it.next(), None);
    // a second walk starts at the front again
    let mut again = channel.iter();
    assert_eq!(again.next(), Some(&1));
}

#[test]
fn channel_iter_of_nothing_ends_at_once() {
    let channel = Channel::new(0u8, 0);
    let mut it = channel.iter();
    assert_eq!(it.size_hint(), (0, Some(0)));
    assert_eq!(it.next(), None);
}

#[test]
fn channel_clone_copies_samples_and_default() {
    let mut channel = Channel::new(4u8, 2);
    channel.write(0, 9);
    let copy = channel.clone().resize(3);
    assert_eq!(copy.get(0), Some(&9));
    assert_eq!(copy.get(1), Some(&4));
    assert_eq!(copy.get(2), Some(&4));
    assert_eq!(channel.len(), 2);
}

#[test]
fn image_new_has_no_channels() {
    let image: Image<u8> = Image::new(12);
    assert_eq!(image.count(), 0);
    assert_eq!(image.len(), 12);
    assert!(image.channel(0).is_none());
}

#[test]
fn image_create_channel_appends_a_full_channel() {
    let mut image = Image::new(3);
    image.create_channel(5u8);
    image.channel_mut(0).unwrap().write(2, 6);
    image.create_channel(8u8);
    assert_eq!(image.count(), 2);
    let last = image.channel(image.count() - 1).unwrap();
    assert_eq!(last.len(), 3);
    assert_eq!((last[0], last[1], last[2]), (8, 8, 8));
    // the earlier channel is as it was
    let first = image.channel(0).unwrap();
    assert_eq!((first[0], first[1], first[2]), (5, 5, 6));
}

#[test]
fn image_channel_past_the_end_is_none() {
    let mut image = Image::new(3);
    image.create_channel(0u8);
    assert!(image.channel(0).is_some());
    assert!(image.channel(1).is_none());
    assert!(image.channel_mut(0).is_some());
    assert!(image.channel_mut(1).is_none());
}

#[test]
fn image_resize_resizes_every_channel() {
    let mut image = Image::new(4);
    image.create_channel(0u8);
    image.create_channel(1u8);
    image.create_channel(2u8);
    image.channel_mut(1).unwrap().write(3, 40);
    image.channel_mut(1).unwrap().write(0, 10);

    image.resize(6);
    assert_eq!(image.len(), 6);
    for c in 0..3 {
        assert_eq!(image[c].len(), 6);
    }
    assert_eq!(image[1][0], 10);
    assert_eq!(image[1][3], 40);
    assert_eq!(image[1][4], 1);
    assert_eq!(image[1][5], 1);
    assert_eq!(image[2][5], 2);

    image.resize(0);
    assert_eq!(image.len(), 0);
    assert_eq!(image.count(), 3);
    for c in 0..3 {
        assert_eq!(image[c].len(), 0);
    }

    image.resize(2);
    for c in 0..3 {
        assert_eq!(image[c].len(), 2);
        assert_eq!(image[c][0], c as u8);
        assert_eq!(image[c][1], c as u8);
    }
}

#[test]
fn image_clone_is_independent() {
    let mut image = Image::new(2);
    image.create_channel(0u8);
    let copy = image.clone();
    image.channel_mut(0).unwrap().write(0, 3);
    assert_eq!(copy.count(), 1);
    assert_eq!(copy.len(), 2);
    assert_eq!(copy[0][0], 0);
    assert_eq!(image[0][0], 3);
}
