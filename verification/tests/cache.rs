use makita::cache::GuildCache;
use makita::previews::PreviewsConfig;

#[test]
fn read_of_untouched_key_sees_default() {
    let mut cache: GuildCache<PreviewsConfig> = GuildCache::new();
    assert!(!cache.contains(7));
    let seen = cache.read(7, |c: &PreviewsConfig| (c.auto_channels.clone(), c.archive_channel));
    assert_eq!(seen, (Vec::new(), None));
    assert!(cache.contains(7));
}

#[test]
fn write_of_untouched_key_starts_from_default() {
    let mut cache: GuildCache<PreviewsConfig> = GuildCache::new();
    let before = cache.write(9, |mut c: PreviewsConfig| {
        let before = c.archive_channel;
        c.archive_channel = Some(1);
        (c, before)
    });
    assert_eq!(before, None);
    assert_eq!(cache.read(9, |c: &PreviewsConfig| c.archive_channel), Some(1));
}

#[test]
fn value_is_not_synthesized_twice() {
    let mut cache: GuildCache<PreviewsConfig> = GuildCache::new();
    cache.read(3, |_c: &PreviewsConfig| ());
    cache.write(3, |mut c: PreviewsConfig| {
        c.archive_channel = Some(44);
        (c, ())
    });
    assert_eq!(cache.read(3, |c: &PreviewsConfig| c.archive_channel), Some(44));
    assert_eq!(cache.read(3, |c: &PreviewsConfig| c.archive_channel), Some(44));
    assert_eq!(cache.peek(3).map(|c| c.archive_channel), Some(Some(44)));
}

#[test]
fn peek_synthesizes_nothing() {
    let cache: GuildCache<PreviewsConfig> = GuildCache::new();
    assert!(cache.peek(5).is_none());
    assert!(!cache.contains(5));
}

#[test]
fn populate_replaces_an_entry() {
    let mut cache: GuildCache<PreviewsConfig> = GuildCache::new();
    cache.populate(1, PreviewsConfig { auto_channels: vec![4], archive_channel: None });
    cache.populate(1, PreviewsConfig { auto_channels: vec![5], archive_channel: Some(6) });
    assert_eq!(cache.read(1, |c: &PreviewsConfig| c.auto_channels.clone()), vec![5]);
}

#[test]
fn evicted_key_is_default_again() {
    let mut cache: GuildCache<PreviewsConfig> = GuildCache::new();
    cache.write(2, |mut c: PreviewsConfig| {
        c.archive_channel = Some(8);
        (c, ())
    });
    cache.evict(2);
    assert!(!cache.contains(2));
    assert_eq!(cache.read(2, |c: &PreviewsConfig| c.archive_channel), None);
    cache.evict(99);
}

fn count_up(cache: &mut GuildCache<PreviewsConfig>, key: u64, times: u64) {
    for _ in 0..times {
        cache.write(key, |mut c: PreviewsConfig| {
            c.archive_channel = Some(c.archive_channel.unwrap_or(0) + 1);
            (c, ())
        });
    }
}

#[test]
fn increments_through_write_all_count() {
    for n in [0u64, 1, 2, 1000] {
        let mut cache: GuildCache<PreviewsConfig> = GuildCache::new();
        count_up(&mut cache, 5, n);
        let seen = cache.read(5, |c: &PreviewsConfig| c.archive_channel.unwrap_or(0));
        assert_eq!(seen, n);
    }
}

#[test]
fn keys_do_not_disturb_each_other() {
    let mut cache: GuildCache<PreviewsConfig> = GuildCache::new();
    count_up(&mut cache, 1, 3);
    count_up(&mut cache, 2, 5);
    count_up(&mut cache, 1, 4);
    assert_eq!(cache.read(1, |c: &PreviewsConfig| c.archive_channel), Some(7));
    assert_eq!(cache.read(2, |c: &PreviewsConfig| c.archive_channel), Some(5));
}

#[test]
fn entry_and_entry_mut_reach_the_same_value() {
    let mut cache: GuildCache<PreviewsConfig> = GuildCache::new();
    cache.entry_mut(4).archive_channel = Some(12);
    assert_eq!(cache.entry(4).archive_channel, Some(12));
}
