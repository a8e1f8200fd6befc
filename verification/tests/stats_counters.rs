use nanonode::stats::{
    Direction, DetailType, Sample, SamplerKey, Samplers, StatType, Stats,
};

/// Test stat counting at both type and detail levels.
#[test]
fn counting() {
    let mut stats = Stats::new(1024);
    stats.add_dir(StatType::Ledger, DetailType::All, Direction::In, 1);
    stats.add_dir(StatType::Ledger, DetailType::All, Direction::In, 5);
    stats.inc_dir(StatType::Ledger, DetailType::All, Direction::In);
    stats.inc_dir(StatType::Ledger, DetailType::Send, Direction::In);
    stats.inc_dir(StatType::Ledger, DetailType::Send, Direction::In);
    stats.inc_dir(StatType::Ledger, DetailType::Receive, Direction::In);
    assert_eq!(
        10,
        stats.count(StatType::Ledger, DetailType::All, Direction::In)
    );
    assert_eq!(
        2,
        stats.count(StatType::Ledger, DetailType::Send, Direction::In)
    );
    assert_eq!(
        1,
        stats.count(StatType::Ledger, DetailType::Receive, Direction::In)
    );

    stats.add_dir(StatType::Ledger, DetailType::All, Direction::In, 0);
    assert_eq!(
        10,
        stats.count(StatType::Ledger, DetailType::All, Direction::In)
    );
}

#[test]
fn directions_are_counted_apart() {
    let mut stats = Stats::new(16);
    stats.inc_dir(StatType::Message, DetailType::Publish, Direction::In);
    stats.inc_dir(StatType::Message, DetailType::Publish, Direction::Out);
    stats.inc_dir(StatType::Message, DetailType::Publish, Direction::Out);
    assert_eq!(
        1,
        stats.count(StatType::Message, DetailType::Publish, Direction::In)
    );
    assert_eq!(
        2,
        stats.count(StatType::Message, DetailType::Publish, Direction::Out)
    );
    stats.clear();
    assert_eq!(
        0,
        stats.count(StatType::Message, DetailType::Publish, Direction::Out)
    );
}

#[test]
fn sampler_keeps_a_bounded_window() {
    let mut samplers = Samplers::new();
    let key = SamplerKey::new(Sample::ActiveElectionDuration);
    samplers.add(key, 1, 2);
    samplers.add(key, 2, 2);
    samplers.add(key, 3, 2);
    // bounded at two: the oldest value left first
    let window = samplers.collect(key);
    assert_eq!(window, vec![2, 3]);
    // collecting drains
    let empty = samplers.collect(key);
    assert_eq!(empty, Vec::<i64>::new());
}
