use eqm_miner::bytes::{low_u32_le, read_array32, read_i64, read_u32, read_u64};
use eqm_miner::clock::{chrono_lite_time, fmt_uptime, time_of_day};
use eqm_miner::logger;
use eqm_miner::reward::format_reward;
use eqm_miner::session;
use eqm_miner::text::{
    align_left, chars_of, contains, decimal, shorten, trim_trailing, zero_padded_decimal,
};

#[test]
fn numbers_are_written_in_decimal() {
    for n in [0, 7, 9, 10, 99, 100, 1_234_567_890, u64::MAX] {
        assert_eq!(decimal(n), format!("{}", n));
    }
}

#[test]
fn different_numbers_are_written_differently() {
    assert_ne!(decimal(1), decimal(10));
    assert_ne!(decimal(0), decimal(100));
}

#[test]
fn zeros_fill_a_number_up() {
    assert_eq!(zero_padded_decimal(7, 2), "07");
    assert_eq!(zero_padded_decimal(0, 6), "000000");
    assert_eq!(zero_padded_decimal(123, 2), "123");
    assert_eq!(zero_padded_decimal(5, 0), "5");
}

#[test]
fn characters_are_listed() {
    assert_eq!(chars_of("a⛏…"), vec!['a', '⛏', '…']);
    assert!(chars_of("").is_empty());
}

#[test]
fn patterns_are_found() {
    for (s, p) in [
        ("abc", "abc"),
        ("abc", "bc"),
        ("abc", ""),
        ("", ""),
        ("aab", "ab"),
        ("ab", "abc"),
        ("abc", "x"),
        ("", "x"),
        ("x⛏y", "⛏"),
    ] {
        assert_eq!(contains(s, p), s.contains(p));
    }
}

#[test]
fn long_texts_are_cut_in_the_middle() {
    assert_eq!(shorten("abcdefgh", 2, "-"), "ab-gh");
    assert_eq!(shorten("ab", 2, "-"), "ab-ab");
    assert_eq!(shorten("⛏abc⛏", 3, ".."), "⛏..⛏");
}

#[test]
fn texts_are_aligned_by_characters() {
    assert_eq!(align_left("ab", 4), "ab  ");
    assert_eq!(align_left("abcdef", 4), "abcdef");
    assert_eq!(align_left("⛏", 3), format!("{:<3}", "⛏"));
}

#[test]
fn trailing_characters_are_cut_off() {
    assert_eq!(trim_trailing("1.500", '0'), "1.5");
    assert_eq!(trim_trailing("000", '0'), "");
    assert_eq!(trim_trailing("abc", '0'), "abc");
    assert_eq!(trim_trailing("0a0", '0'), "0a");
}

#[test]
fn rewards_are_written_in_eqm() {
    assert_eq!(format_reward(0), "0");
    assert_eq!(format_reward(1), "0.000001");
    assert_eq!(format_reward(500_000), "0.5");
    assert_eq!(format_reward(1_000_000), "1");
    assert_eq!(format_reward(1_500_000), "1.5");
    assert_eq!(format_reward(25_000_000), "25");
    assert_eq!(format_reward(100_000_000), "100");
    assert_eq!(format_reward(10_010_100), "10.0101");
    assert_eq!(format_reward(u64::MAX), "18446744073709.551615");
    assert_eq!(logger::format_reward_base(1_500_000), "1.5");
}

#[test]
fn no_unit_is_lost_in_the_text() {
    assert_ne!(format_reward(1_000_001), format_reward(1_000_000));
    assert_ne!(format_reward(10_000_000), format_reward(1_000_000));
    assert_ne!(format_reward(1_100_000), format_reward(1_010_000));
}

#[test]
fn uptime_has_hours_only_where_there_are_any() {
    assert_eq!(fmt_uptime(0), "0:00");
    assert_eq!(fmt_uptime(59), "0:59");
    assert_eq!(fmt_uptime(61), "1:01");
    assert_eq!(fmt_uptime(3599), "59:59");
    assert_eq!(fmt_uptime(3600), "1:00:00");
    assert_eq!(fmt_uptime(3661), "1:01:01");
    assert_eq!(fmt_uptime(360_000), "100:00:00");
}

#[test]
fn different_uptimes_are_written_differently() {
    assert_ne!(fmt_uptime(60), fmt_uptime(3600));
    assert_ne!(fmt_uptime(600), fmt_uptime(36_000));
}

#[test]
fn time_of_day_is_utc() {
    assert_eq!(time_of_day(0), "00:00:00");
    assert_eq!(time_of_day(86_399), "23:59:59");
    assert_eq!(time_of_day(86_400), "00:00:00");
    assert_eq!(time_of_day(1_700_000_000), "22:13:20");
}

#[test]
fn time_of_day_repeats_every_day() {
    assert_eq!(time_of_day(12_345), time_of_day(12_345 + 3 * 86_400));
    assert_ne!(time_of_day(12_345), time_of_day(12_346));
}

#[test]
fn time_now_comes_from_the_clock() {
    let secs = || std::time::UNIX_EPOCH.elapsed().unwrap().as_secs();
    let before = secs();
    let now = chrono_lite_time();
    let after = secs();
    assert!((before..=after).any(|t| time_of_day(t) == now));
}

#[test]
fn signatures_are_shortened() {
    assert_eq!(logger::short_sig("123456789012"), "123456789012");
    assert_eq!(logger::short_sig("1234567890123"), "123456...890123");
    assert_eq!(logger::short_sig(""), "");
    assert_eq!(session::short_sig("123456789012"), "123456789012");
    assert_eq!(session::short_sig("1234567890123"), "123456…890123");
}

#[test]
fn numbers_are_read_in_little_endian_order() {
    let data = [0xff, 1, 2, 3, 4, 5, 6, 7, 8, 0xff];
    assert_eq!(read_u64(&data, 1), 0x0807_0605_0403_0201);
    assert_eq!(read_u32(&data, 1), 0x0403_0201);
    assert_eq!(read_i64(&data, 1), 0x0807_0605_0403_0201);
    for v in [0i64, 1, -1, -2, i64::MIN, i64::MAX] {
        assert_eq!(read_i64(&v.to_le_bytes(), 0), v);
    }
    assert_eq!(read_u64(&u64::MAX.to_le_bytes(), 0), u64::MAX);
    assert_eq!(read_array32(&[6u8; 40], 8), [6u8; 32]);
}

#[test]
fn low_four_bytes_are_written_and_read_back() {
    assert_eq!(low_u32_le(0x0403_0201), vec![1, 2, 3, 4]);
    assert_eq!(low_u32_le(0x1_0000_0005), vec![5, 0, 0, 0]);
    assert_eq!(read_u32(&low_u32_le(1_400_000), 0), 1_400_000);
}
