use im_core::snowflake::{
    generate_snowflake_id_with_config, SnowflakeGenerator, MAX_DATACENTER_ID, MAX_MACHINE_ID,
    MAX_SEQUENCE,
};

#[test]
fn test_generator() {
    let id = generate_snowflake_id_with_config(1, 1);
    let timestamp = SnowflakeGenerator::parse_timestamp(id);
    let datacenter_id = SnowflakeGenerator::parse_datacenter_id(id);
    let machine_id = SnowflakeGenerator::parse_machine_id(id);
    let sequence = SnowflakeGenerator::parse_sequence(id);
    println!("timestamp : {timestamp}");
    println!("datacenter_id : {datacenter_id}");
    println!("machine_id : {machine_id}");
    println!("sequence : {sequence}");
    println!("snowflake id: {id}");
}

#[test]
fn parse_recovers_composed_fields() {
    // An id assembled by hand from the documented layout.
    let timestamp: u64 = 123_456_789;
    let datacenter_id: u64 = 3;
    let machine_id: u64 = 5;
    let sequence: u64 = 7;
    let id = (timestamp << 22) | (datacenter_id << 17) | (machine_id << 12) | sequence;
    assert_eq!(id, 517_815_304_343_559u64);
    assert_eq!(SnowflakeGenerator::parse_timestamp(id), timestamp);
    assert_eq!(SnowflakeGenerator::parse_datacenter_id(id), datacenter_id);
    assert_eq!(SnowflakeGenerator::parse_machine_id(id), machine_id);
    assert_eq!(SnowflakeGenerator::parse_sequence(id), sequence);
}

#[test]
fn ids_strictly_increase_and_never_collide() {
    let mut generator = SnowflakeGenerator::new(2, 1);
    let mut previous = generator.next_id();
    for _ in 0..20_000u32 {
        let next = generator.next_id();
        assert!(next > previous, "ids must strictly increase");
        previous = next;
    }
}

#[test]
fn same_tick_ids_increase_in_sequence() {
    let mut generator = SnowflakeGenerator::new(1, 1);
    let a = generator.next_id();
    let b = generator.next_id();
    if SnowflakeGenerator::parse_timestamp(a) == SnowflakeGenerator::parse_timestamp(b) {
        assert!(SnowflakeGenerator::parse_sequence(b) > SnowflakeGenerator::parse_sequence(a));
    } else {
        assert_eq!(SnowflakeGenerator::parse_sequence(b), 0);
    }
}

#[test]
fn field_limits_match_the_layout() {
    assert_eq!(MAX_MACHINE_ID, 31);
    assert_eq!(MAX_DATACENTER_ID, 31);
    assert_eq!(MAX_SEQUENCE, 4095);
}

#[test]
fn one_shot_ids_carry_their_configuration() {
    let id = generate_snowflake_id_with_config(5, 3);
    assert_eq!(SnowflakeGenerator::parse_machine_id(id), 5);
    assert_eq!(SnowflakeGenerator::parse_datacenter_id(id), 3);
    assert!(SnowflakeGenerator::parse_sequence(id) <= 1);
}
